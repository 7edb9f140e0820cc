//! The records that the server sends, read from JSON.
//!
//! A record is read field by field in a fixed order; the first field that is
//! absent or of the wrong type decides the error. Fields that the engine does
//! not know are passed over.

use vstd::prelude::*;

use crate::decode::{
    flag_field, get_flag, get_text, get_type_field, get_types, get_word_field, text_field,
    type_field, types_field, word_field,
};
use crate::error::{Error, Field};
use crate::json::{Json, JsonView};
use crate::kind::{device_type_of_mode, DeviceType};
use crate::model::{Circut, CircutView, Device, DeviceView, SceneMode, Zone, ZoneView};
use crate::views::{views, views_push};

verus! {

/// The device that a JSON object describes.
pub open spec fn device_of(j: JsonView) -> Result<DeviceView, Error> {
    let id = text_field(j, Field::Id);
    let name = text_field(j, Field::Name);
    let zone = word_field(j, Field::ZoneId);
    let present = flag_field(j, Field::IsPresent);
    let mode = word_field(j, Field::OutputMode);
    let types = types_field(j, Field::Groups);
    let button = type_field(j, Field::ButtonActiveGroup);
    if id is Err {
        Err(id->Err_0)
    } else if name is Err {
        Err(name->Err_0)
    } else if zone is Err {
        Err(zone->Err_0)
    } else if present is Err {
        Err(present->Err_0)
    } else if mode is Err {
        Err(mode->Err_0)
    } else if types is Err {
        Err(types->Err_0)
    } else if button is Err {
        Err(button->Err_0)
    } else {
        Ok(
            DeviceView {
                id: id->Ok_0,
                name: name->Ok_0,
                zone_id: zone->Ok_0,
                present: present->Ok_0,
                device_type: device_type_of_mode(mode->Ok_0),
                types: types->Ok_0,
                button_type: button->Ok_0,
            },
        )
    }
}

/// The zone that a JSON object describes. Its groups are derived later.
pub open spec fn zone_of(j: JsonView) -> Result<ZoneView, Error> {
    let id = word_field(j, Field::ZoneId);
    let name = text_field(j, Field::Name);
    let types = types_field(j, Field::Groups);
    if id is Err {
        Err(id->Err_0)
    } else if name is Err {
        Err(name->Err_0)
    } else if types is Err {
        Err(types->Err_0)
    } else {
        Ok(ZoneView { id: id->Ok_0, name: name->Ok_0, types: types->Ok_0, groups: Seq::empty() })
    }
}

/// The meter that a JSON object describes.
pub open spec fn circut_of(j: JsonView) -> Result<CircutView, Error> {
    let id = text_field(j, Field::Dsid);
    let name = text_field(j, Field::Name);
    let present = flag_field(j, Field::IsPresent);
    let valid = flag_field(j, Field::IsValid);
    if id is Err {
        Err(id->Err_0)
    } else if name is Err {
        Err(name->Err_0)
    } else if present is Err {
        Err(present->Err_0)
    } else if valid is Err {
        Err(valid->Err_0)
    } else {
        Ok(
            CircutView {
                id: id->Ok_0,
                name: name->Ok_0,
                present: present->Ok_0,
                valid: valid->Ok_0,
            },
        )
    }
}

/// The scene mode that a JSON object describes.
pub open spec fn scene_mode_of(j: JsonView) -> Result<SceneMode, Error> {
    let scene = word_field(j, Field::SceneId);
    let dont_care = flag_field(j, Field::DontCare);
    let local_prio = flag_field(j, Field::LocalPrio);
    let special_mode = flag_field(j, Field::SpecialMode);
    let flash_mode = flag_field(j, Field::FlashMode);
    let led = word_field(j, Field::LedconIndex);
    if scene is Err {
        Err(scene->Err_0)
    } else if dont_care is Err {
        Err(dont_care->Err_0)
    } else if local_prio is Err {
        Err(local_prio->Err_0)
    } else if special_mode is Err {
        Err(special_mode->Err_0)
    } else if flash_mode is Err {
        Err(flash_mode->Err_0)
    } else if led is Err {
        Err(led->Err_0)
    } else {
        Ok(
            SceneMode {
                scene: scene->Ok_0,
                dont_care: dont_care->Ok_0,
                local_prio: local_prio->Ok_0,
                special_mode: special_mode->Ok_0,
                flash_mode: flash_mode->Ok_0,
                led_con_index: led->Ok_0,
            },
        )
    }
}

impl Device {
    /// Reads a device from the object that describes it.
    pub fn from_json(j: &Json) -> (r: Result<Device, Error>)
        ensures
            match r {
                Ok(d) => device_of(j@) == Ok::<DeviceView, Error>(d@),
                Err(e) => device_of(j@) == Err::<DeviceView, Error>(e),
            },
    {
        let id = get_text(j, Field::Id)?;
        let name = get_text(j, Field::Name)?;
        let zone_id = get_word_field(j, Field::ZoneId)?;
        let present = get_flag(j, Field::IsPresent)?;
        let mode = get_word_field(j, Field::OutputMode)?;
        let types = get_types(j, Field::Groups)?;
        let button_type = get_type_field(j, Field::ButtonActiveGroup)?;
        Ok(Device { id, name, zone_id, present, device_type: DeviceType::from(mode), types, button_type })
    }
}

impl Zone {
    /// Reads a zone from the object that describes it.
    pub fn from_json(j: &Json) -> (r: Result<Zone, Error>)
        ensures
            match r {
                Ok(z) => zone_of(j@) == Ok::<ZoneView, Error>(z@),
                Err(e) => zone_of(j@) == Err::<ZoneView, Error>(e),
            },
    {
        let id = get_word_field(j, Field::ZoneId)?;
        let name = get_text(j, Field::Name)?;
        let types = get_types(j, Field::Groups)?;
        let z = Zone { id, name, types, groups: Vec::new() };
        assert(views(z.groups@) =~= Seq::empty());
        Ok(z)
    }
}

impl Circut {
    /// Reads a meter from the object that describes it.
    pub fn from_json(j: &Json) -> (r: Result<Circut, Error>)
        ensures
            match r {
                Ok(c) => circut_of(j@) == Ok::<CircutView, Error>(c@),
                Err(e) => circut_of(j@) == Err::<CircutView, Error>(e),
            },
    {
        let id = get_text(j, Field::Dsid)?;
        let name = get_text(j, Field::Name)?;
        let present = get_flag(j, Field::IsPresent)?;
        let valid = get_flag(j, Field::IsValid)?;
        Ok(Circut { id, name, present, valid })
    }
}

impl SceneMode {
    /// Reads a scene mode from the object that describes it.
    pub fn from_json(j: &Json) -> (r: Result<SceneMode, Error>)
        ensures
            r == scene_mode_of(j@),
    {
        let scene = get_word_field(j, Field::SceneId)?;
        let dont_care = get_flag(j, Field::DontCare)?;
        let local_prio = get_flag(j, Field::LocalPrio)?;
        let special_mode = get_flag(j, Field::SpecialMode)?;
        let flash_mode = get_flag(j, Field::FlashMode)?;
        let led_con_index = get_word_field(j, Field::LedconIndex)?;
        Ok(SceneMode { scene, dont_care, local_prio, special_mode, flash_mode, led_con_index })
    }
}

/// A run of JSON objects read as devices; the first that fails decides.
pub open spec fn devices_of(items: Seq<JsonView>) -> Result<Seq<DeviceView>, Error>
    decreases items.len(),
{
    if items.len() == 0 {
        Ok(Seq::empty())
    } else {
        match devices_of(items.drop_last()) {
            Ok(front) => match device_of(items.last()) {
                Ok(x) => Ok(front.push(x)),
                Err(e) => Err(e),
            },
            Err(e) => Err(e),
        }
    }
}

/// Once a front part of a run of devices fails, the whole run fails the same
/// way.
pub proof fn failed_device(items: Seq<JsonView>, k: int)
    requires
        0 <= k <= items.len(),
        devices_of(items.take(k)) is Err,
    ensures
        devices_of(items) == devices_of(items.take(k)),
    decreases items.len(),
{
    if k == items.len() {
        assert(items.take(k) =~= items);
    } else {
        assert(items.drop_last().take(k) =~= items.take(k));
        failed_device(items.drop_last(), k);
    }
}

/// Reads every element of an array as a device.
pub fn read_devices(items: &Vec<Json>) -> (r: Result<Vec<Device>, Error>)
    ensures
        match r {
            Ok(out) => devices_of(views(items@)) == Ok::<Seq<DeviceView>, Error>(views(out@)),
            Err(e) => devices_of(views(items@)) == Err::<Seq<DeviceView>, Error>(e),
        },
{
    let ghost all = views(items@);
    let mut out: Vec<Device> = Vec::new();
    let mut i: usize = 0;
    proof {
        assert(all.take(0) =~= Seq::<JsonView>::empty());
        assert(views(out@) =~= Seq::<DeviceView>::empty());
    }
    while i < items.len()
        invariant
            i <= items.len(),
            all == views(items@),
            devices_of(all.take(i as int)) == Ok::<Seq<DeviceView>, Error>(views(out@)),
        decreases items.len() - i,
    {
        proof {
            assert(all.take(i + 1).drop_last() =~= all.take(i as int));
            assert(all.take(i + 1).last() == items@[i as int]@);
        }
        match Device::from_json(&items[i]) {
            Ok(x) => {
                proof {
                    views_push(out@, x);
                }
                out.push(x);
            },
            Err(e) => {
                proof {
                    assert(devices_of(all.take(i + 1)) == Err::<Seq<DeviceView>, Error>(e));
                    failed_device(all, i + 1);
                }
                return Err(e);
            },
        }
        i = i + 1;
    }
    proof {
        assert(all.take(items@.len() as int) =~= all);
    }
    Ok(out)
}

/// A run of JSON objects read as zones; the first that fails decides.
pub open spec fn zones_of(items: Seq<JsonView>) -> Result<Seq<ZoneView>, Error>
    decreases items.len(),
{
    if items.len() == 0 {
        Ok(Seq::empty())
    } else {
        match zones_of(items.drop_last()) {
            Ok(front) => match zone_of(items.last()) {
                Ok(x) => Ok(front.push(x)),
                Err(e) => Err(e),
            },
            Err(e) => Err(e),
        }
    }
}

/// Once a front part of a run of zones fails, the whole run fails the same
/// way.
pub proof fn failed_zone(items: Seq<JsonView>, k: int)
    requires
        0 <= k <= items.len(),
        zones_of(items.take(k)) is Err,
    ensures
        zones_of(items) == zones_of(items.take(k)),
    decreases items.len(),
{
    if k == items.len() {
        assert(items.take(k) =~= items);
    } else {
        assert(items.drop_last().take(k) =~= items.take(k));
        failed_zone(items.drop_last(), k);
    }
}

/// Reads every element of an array as a zone.
pub fn read_zones(items: &Vec<Json>) -> (r: Result<Vec<Zone>, Error>)
    ensures
        match r {
            Ok(out) => zones_of(views(items@)) == Ok::<Seq<ZoneView>, Error>(views(out@)),
            Err(e) => zones_of(views(items@)) == Err::<Seq<ZoneView>, Error>(e),
        },
{
    let ghost all = views(items@);
    let mut out: Vec<Zone> = Vec::new();
    let mut i: usize = 0;
    proof {
        assert(all.take(0) =~= Seq::<JsonView>::empty());
        assert(views(out@) =~= Seq::<ZoneView>::empty());
    }
    while i < items.len()
        invariant
            i <= items.len(),
            all == views(items@),
            zones_of(all.take(i as int)) == Ok::<Seq<ZoneView>, Error>(views(out@)),
        decreases items.len() - i,
    {
        proof {
            assert(all.take(i + 1).drop_last() =~= all.take(i as int));
            assert(all.take(i + 1).last() == items@[i as int]@);
        }
        match Zone::from_json(&items[i]) {
            Ok(x) => {
                proof {
                    views_push(out@, x);
                }
                out.push(x);
            },
            Err(e) => {
                proof {
                    assert(zones_of(all.take(i + 1)) == Err::<Seq<ZoneView>, Error>(e));
                    failed_zone(all, i + 1);
                }
                return Err(e);
            },
        }
        i = i + 1;
    }
    proof {
        assert(all.take(items@.len() as int) =~= all);
    }
    Ok(out)
}

/// A run of JSON objects read as circuts; the first that fails decides.
pub open spec fn circuts_of(items: Seq<JsonView>) -> Result<Seq<CircutView>, Error>
    decreases items.len(),
{
    if items.len() == 0 {
        Ok(Seq::empty())
    } else {
        match circuts_of(items.drop_last()) {
            Ok(front) => match circut_of(items.last()) {
                Ok(x) => Ok(front.push(x)),
                Err(e) => Err(e),
            },
            Err(e) => Err(e),
        }
    }
}

/// Once a front part of a run of circuts fails, the whole run fails the same
/// way.
pub proof fn failed_circut(items: Seq<JsonView>, k: int)
    requires
        0 <= k <= items.len(),
        circuts_of(items.take(k)) is Err,
    ensures
        circuts_of(items) == circuts_of(items.take(k)),
    decreases items.len(),
{
    if k == items.len() {
        assert(items.take(k) =~= items);
    } else {
        assert(items.drop_last().take(k) =~= items.take(k));
        failed_circut(items.drop_last(), k);
    }
}

/// Reads every element of an array as a circut.
pub fn read_circuts(items: &Vec<Json>) -> (r: Result<Vec<Circut>, Error>)
    ensures
        match r {
            Ok(out) => circuts_of(views(items@)) == Ok::<Seq<CircutView>, Error>(views(out@)),
            Err(e) => circuts_of(views(items@)) == Err::<Seq<CircutView>, Error>(e),
        },
{
    let ghost all = views(items@);
    let mut out: Vec<Circut> = Vec::new();
    let mut i: usize = 0;
    proof {
        assert(all.take(0) =~= Seq::<JsonView>::empty());
        assert(views(out@) =~= Seq::<CircutView>::empty());
    }
    while i < items.len()
        invariant
            i <= items.len(),
            all == views(items@),
            circuts_of(all.take(i as int)) == Ok::<Seq<CircutView>, Error>(views(out@)),
        decreases items.len() - i,
    {
        proof {
            assert(all.take(i + 1).drop_last() =~= all.take(i as int));
            assert(all.take(i + 1).last() == items@[i as int]@);
        }
        match Circut::from_json(&items[i]) {
            Ok(x) => {
                proof {
                    views_push(out@, x);
                }
                out.push(x);
            },
            Err(e) => {
                proof {
                    assert(circuts_of(all.take(i + 1)) == Err::<Seq<CircutView>, Error>(e));
                    failed_circut(all, i + 1);
                }
                return Err(e);
            },
        }
        i = i + 1;
    }
    proof {
        assert(all.take(items@.len() as int) =~= all);
    }
    Ok(out)
}

} // verus!
