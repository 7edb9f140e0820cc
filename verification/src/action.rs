//! The meaning of scene numbers.
//!
//! The server knows only numbered scenes. What a number means depends on the
//! type of the group that it is called on. The table below is the vendor's;
//! its quirks are kept as they are.

use vstd::prelude::*;

use crate::kind::Type;

verus! {

/// What a scene call does.
#[derive(Clone, Copy, Debug, PartialEq, Eq, Structural)]
pub enum Action {
    AllLightOn,
    AllLightOff,
    LightOn(usize),
    LightOff(usize),
    AllShadowUp,
    AllShadowDown,
    ShadowUp(usize),
    ShadowDown(usize),
    AllShadowStop,
    ShadowStop(usize),
    ShadowStepOpen,
    ShadowStepClose,
    AllShadowSpecial1,
    AllShadowSpecial2,
    Unknown,
}

/// The meaning of scene `scene` on a light group.
pub open spec fn light_action(scene: usize) -> Action {
    if scene == 0 {
        Action::AllLightOff
    } else if scene == 5 {
        Action::AllLightOn
    } else if 1 <= scene <= 4 {
        Action::LightOff(scene)
    } else if 6 <= scene <= 8 {
        Action::LightOn((scene - 5) as usize)
    } else {
        Action::Unknown
    }
}

/// The meaning of scene `scene` on a shade group.
pub open spec fn shadow_action(scene: usize) -> Action {
    if scene == 0 {
        Action::AllShadowDown
    } else if scene == 5 || scene == 17 {
        Action::AllShadowUp
    } else if 1 <= scene <= 4 {
        Action::ShadowDown(scene)
    } else if 6 <= scene <= 8 {
        Action::ShadowUp((scene - 5) as usize)
    } else if scene == 55 {
        Action::AllShadowStop
    } else if 51 <= scene <= 54 {
        Action::ShadowStop((scene - 51) as usize)
    } else if scene == 42 {
        Action::ShadowStepClose
    } else if scene == 43 {
        Action::ShadowStepOpen
    } else if scene == 18 {
        Action::AllShadowSpecial1
    } else if scene == 19 {
        Action::AllShadowSpecial2
    } else {
        Action::Unknown
    }
}

/// The meaning of a scene number on a group of the given type. Only light
/// and shade groups give scenes a meaning.
pub open spec fn action_from_scene(typ: Type, scene: usize) -> Action {
    match typ {
        Type::Light => light_action(scene),
        Type::Shadow => shadow_action(scene),
        _ => Action::Unknown,
    }
}

/// The type and scene number by which an action is called, as mathematical
/// integers.
pub open spec fn scene_of_action(action: Action) -> Option<(Type, int)> {
    match action {
        Action::AllLightOff => Some((Type::Light, 0)),
        Action::AllLightOn => Some((Type::Light, 5)),
        Action::LightOff(v) => Some((Type::Light, v as int)),
        Action::LightOn(v) => Some((Type::Light, v + 5)),
        Action::AllShadowDown => Some((Type::Shadow, 0)),
        Action::AllShadowUp => Some((Type::Shadow, 5)),
        Action::AllShadowStop => Some((Type::Shadow, 55)),
        Action::AllShadowSpecial1 => Some((Type::Shadow, 18)),
        Action::AllShadowSpecial2 => Some((Type::Shadow, 19)),
        Action::ShadowDown(v) => Some((Type::Shadow, v as int)),
        Action::ShadowUp(v) => Some((Type::Shadow, v + 5)),
        Action::ShadowStop(v) => Some((Type::Shadow, v + 51)),
        Action::ShadowStepClose => Some((Type::Shadow, 42)),
        Action::ShadowStepOpen => Some((Type::Shadow, 43)),
        Action::Unknown => None,
    }
}

/// The scene call that performs an action: none for `Unknown`, and none
/// where the scene number would not fit the machine's word.
pub open spec fn action_to_scene(action: Action) -> Option<(Type, usize)> {
    match scene_of_action(action) {
        Some((typ, scene)) => if scene <= usize::MAX {
            Some((typ, scene as usize))
        } else {
            None
        },
        None => None,
    }
}

impl Action {
    /// Decodes a scene number that was called on a group of type `typ`.
    pub fn new(typ: Type, scene: usize) -> (r: Action)
        ensures
            r == action_from_scene(typ, scene),
    {
        if typ == Type::Light && scene == 0 {
            return Action::AllLightOff;
        }
        if typ == Type::Light && scene == 5 {
            return Action::AllLightOn;
        }
        if typ == Type::Shadow && scene == 0 {
            return Action::AllShadowDown;
        }
        if typ == Type::Shadow && scene == 5 {
            return Action::AllShadowUp;
        }
        if scene > 0 && scene < 5 {
            if typ == Type::Light {
                return Action::LightOff(scene);
            } else if typ == Type::Shadow {
                return Action::ShadowDown(scene);
            }
        }
        if scene > 5 && scene < 9 {
            if typ == Type::Light {
                return Action::LightOn(scene - 5);
            } else if typ == Type::Shadow {
                return Action::ShadowUp(scene - 5);
            }
        }
        if typ == Type::Shadow && scene == 55 {
            return Action::AllShadowStop;
        }
        if typ == Type::Shadow && scene > 50 && scene < 55 {
            return Action::ShadowStop(scene - 51);
        }
        if typ == Type::Shadow && scene == 42 {
            return Action::ShadowStepClose;
        }
        if typ == Type::Shadow && scene == 43 {
            return Action::ShadowStepOpen;
        }
        if typ == Type::Shadow && scene == 17 {
            return Action::AllShadowUp;
        }
        if typ == Type::Shadow && scene == 18 {
            return Action::AllShadowSpecial1;
        }
        if typ == Type::Shadow && scene == 19 {
            return Action::AllShadowSpecial2;
        }
        Action::Unknown
    }

    /// The type and scene number by which this action is called.
    pub fn to_scene_type(&self) -> (r: Option<(Type, usize)>)
        ensures
            r == action_to_scene(*self),
    {
        match self {
            Action::AllLightOff => Some((Type::Light, 0)),
            Action::AllLightOn => Some((Type::Light, 5)),
            Action::LightOff(v) => Some((Type::Light, *v)),
            Action::LightOn(v) => shifted(Type::Light, *v, 5),
            Action::AllShadowDown => Some((Type::Shadow, 0)),
            Action::AllShadowUp => Some((Type::Shadow, 5)),
            Action::AllShadowStop => Some((Type::Shadow, 55)),
            Action::AllShadowSpecial1 => Some((Type::Shadow, 18)),
            Action::AllShadowSpecial2 => Some((Type::Shadow, 19)),
            Action::ShadowDown(v) => Some((Type::Shadow, *v)),
            Action::ShadowUp(v) => shifted(Type::Shadow, *v, 5),
            Action::ShadowStop(v) => shifted(Type::Shadow, *v, 51),
            Action::ShadowStepClose => Some((Type::Shadow, 42)),
            Action::ShadowStepOpen => Some((Type::Shadow, 43)),
            Action::Unknown => None,
        }
    }

    /// True for the two step actions, which address every shade group of a
    /// zone at once.
    pub open spec fn is_step(self) -> bool {
        self == Action::ShadowStepOpen || self == Action::ShadowStepClose
    }
}

/// The scene `id + offset` on `typ`, unless the sum leaves the machine word.
fn shifted(typ: Type, id: usize, offset: usize) -> (r: Option<(Type, usize)>)
    ensures
        r == (if id + offset <= usize::MAX {
            Some((typ, (id + offset) as usize))
        } else {
            None
        }),
{
    match id.checked_add(offset) {
        Some(scene) => Some((typ, scene)),
        None => None,
    }
}

impl Default for Action {
    fn default() -> (r: Action)
        ensures
            r == Action::Unknown,
    {
        Action::Unknown
    }
}

/// The sub-group that a scene number addresses; 0 stands for the whole zone.
pub open spec fn group_id_from_scene(scene: usize) -> usize {
    if 1 <= scene <= 4 {
        scene
    } else if 6 <= scene <= 8 {
        (scene - 5) as usize
    } else if 51 <= scene <= 54 {
        (scene - 51) as usize
    } else {
        0
    }
}

/// The stop scenes 51 to 54 address the sub-groups 0 to 3 of a shade group,
/// and no other group type knows them.
pub proof fn stop_scenes(scene: usize)
    requires
        51 <= scene <= 54,
    ensures
        group_id_from_scene(scene) == scene - 51,
        action_from_scene(Type::Shadow, scene) == Action::ShadowStop((scene - 51) as usize),
        action_from_scene(Type::Shadow, scene) == Action::ShadowStop(group_id_from_scene(scene)),
{
}

/// True of the scenes that have exactly one meaning and one number: 0 to 8
/// on lights, 0 to 8 and 51 to 54 on shades.
pub open spec fn plain_scene(typ: Type, scene: usize) -> bool {
    ||| typ == Type::Light && scene <= 8
    ||| typ == Type::Shadow && (scene <= 8 || 51 <= scene <= 54)
}

/// A plain scene is found again from the action that it decodes to.
pub proof fn plain_scenes_round_trip(typ: Type, scene: usize)
    requires
        plain_scene(typ, scene),
    ensures
        action_to_scene(action_from_scene(typ, scene)) == Some((typ, scene)),
{
}

/// Scene 17 on a shade group is a second number for "all up": it decodes,
/// but it is not the number by which the action is called.
pub proof fn alias_scene_is_one_way()
    ensures
        action_from_scene(Type::Shadow, 17) == Action::AllShadowUp,
        action_to_scene(action_from_scene(Type::Shadow, 17)) == Some((Type::Shadow, 5usize)),
{
}

/// Whatever is decoded from a scene can be called again, and the call decodes
/// to the same action: decoding after encoding changes nothing.
pub proof fn decoded_actions_are_stable(typ: Type, scene: usize)
    ensures
        match action_to_scene(action_from_scene(typ, scene)) {
            Some((t, s)) => action_from_scene(t, s) == action_from_scene(typ, scene),
            None => action_from_scene(typ, scene) == Action::Unknown,
        },
{
}

/// No scene outside light and shade groups has a meaning.
pub proof fn other_types_know_no_scene(typ: Type, scene: usize)
    requires
        typ != Type::Light,
        typ != Type::Shadow,
    ensures
        action_from_scene(typ, scene) == Action::Unknown,
{
}

} // verus!
