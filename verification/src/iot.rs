//! The IoT manager: simulated smart-home devices and their power
//! control.

use vstd::prelude::*;

use crate::strutil::str_eq;
use crate::token::clone_pairs;

verus! {

/// One smart-home device.
#[derive(Debug)]
pub struct IoTDevice {
    pub id: String,
    pub name: String,
    pub device_type: String,
    pub location: String,
    pub powered: bool,
    pub properties: Vec<(String, String)>,
}

/// Field-for-field sameness of two devices; the property list is
/// compared by contents.
pub open spec fn device_eq(a: IoTDevice, b: IoTDevice) -> bool {
    &&& a.id == b.id
    &&& a.name == b.name
    &&& a.device_type == b.device_type
    &&& a.location == b.location
    &&& a.powered == b.powered
    &&& a.properties@ == b.properties@
}

impl Clone for IoTDevice {
    fn clone(&self) -> (r: Self)
        ensures
            device_eq(r, *self),
    {
        IoTDevice {
            id: self.id.clone(),
            name: self.name.clone(),
            device_type: self.device_type.clone(),
            location: self.location.clone(),
            powered: self.powered,
            properties: clone_pairs(&self.properties),
        }
    }
}

/// Does `b` equal `a` in everything but its power switch, which is `p`?
pub open spec fn device_powered(a: IoTDevice, b: IoTDevice, p: bool) -> bool {
    &&& b.id == a.id
    &&& b.name == a.name
    &&& b.device_type == a.device_type
    &&& b.location == a.location
    &&& b.powered == p
    &&& b.properties@ == a.properties@
}

/// What controlling a device reports.
#[derive(Debug)]
pub struct ControlResult {
    pub success: bool,
    pub message: String,
}

/// Index of the first device with this id, or the sequence's length if
/// there is none.
pub open spec fn device_idx(s: Seq<IoTDevice>, id: Seq<char>) -> int
    decreases s.len(),
{
    if s.len() == 0 {
        0
    } else if s[0].id@ == id {
        0
    } else {
        1 + device_idx(s.drop_first(), id)
    }
}

/// Basic facts about [`device_idx`].
pub proof fn lemma_device_idx(s: Seq<IoTDevice>, id: Seq<char>)
    ensures
        0 <= device_idx(s, id) <= s.len(),
        device_idx(s, id) < s.len() ==> s[device_idx(s, id)].id@ == id,
        forall|j: int| 0 <= j < device_idx(s, id) ==> s[j].id@ != id,
    decreases s.len(),
{
    if s.len() > 0 && s[0].id@ != id {
        lemma_device_idx(s.drop_first(), id);
        assert forall|j: int| 0 <= j < device_idx(s, id) implies s[j].id@ != id by {
            if j > 0 {
                assert(s[j] == s.drop_first()[j - 1]);
            }
        }
    }
}

/// [`device_idx`] is determined by a scan's findings.
pub proof fn lemma_device_idx_is(s: Seq<IoTDevice>, id: Seq<char>, i: int)
    requires
        0 <= i <= s.len(),
        forall|j: int| 0 <= j < i ==> s[j].id@ != id,
        i < s.len() ==> s[i].id@ == id,
    ensures
        device_idx(s, id) == i,
    decreases s.len(),
{
    if s.len() == 0 {
    } else if i == 0 {
    } else {
        lemma_device_idx_is(s.drop_first(), id, i - 1);
    }
}

/// Manages the device inventory.
#[derive(Debug)]
pub struct IoTManager {
    pub name: String,
    pub devices: Vec<IoTDevice>,
}

impl IoTManager {
    /// A manager with no devices discovered yet.
    pub fn new() -> (r: IoTManager)
        ensures
            r.name@ == "IoTManager"@,
            r.devices@.len() == 0,
    {
        IoTManager { name: String::from_str("IoTManager"), devices: Vec::new() }
    }

    /// Populate the three simulated devices: a light, a thermostat and
    /// a camera, all powered.
    pub fn initialize(&mut self) -> (r: Result<(), String>)
        ensures
            r is Ok,
            final(self).name == old(self).name,
            ({
                let d = final(self).devices@;
                &&& d.len() == 3
                &&& d[0].id@ == "device_001"@
                &&& d[0].name@ == "Living Room Light"@
                &&& d[0].device_type@ == "light"@
                &&& d[0].location@ == "Living Room"@
                &&& d[0].powered
                &&& d[1].id@ == "device_002"@
                &&& d[1].name@ == "Bedroom Thermostat"@
                &&& d[1].device_type@ == "thermostat"@
                &&& d[1].location@ == "Bedroom"@
                &&& d[1].powered
                &&& d[2].id@ == "device_003"@
                &&& d[2].name@ == "Front Door Camera"@
                &&& d[2].device_type@ == "camera"@
                &&& d[2].location@ == "Front Door"@
                &&& d[2].powered
            }),
    {
        let mut devices: Vec<IoTDevice> = Vec::new();
        devices.push(
            IoTDevice {
                id: String::from_str("device_001"),
                name: String::from_str("Living Room Light"),
                device_type: String::from_str("light"),
                location: String::from_str("Living Room"),
                powered: true,
                properties: Vec::new(),
            },
        );
        devices.push(
            IoTDevice {
                id: String::from_str("device_002"),
                name: String::from_str("Bedroom Thermostat"),
                device_type: String::from_str("thermostat"),
                location: String::from_str("Bedroom"),
                powered: true,
                properties: Vec::new(),
            },
        );
        devices.push(
            IoTDevice {
                id: String::from_str("device_003"),
                name: String::from_str("Front Door Camera"),
                device_type: String::from_str("camera"),
                location: String::from_str("Front Door"),
                powered: true,
                properties: Vec::new(),
            },
        );
        self.devices = devices;
        Ok(())
    }

    /// All known devices.
    pub fn discover_devices(&self) -> (r: Result<Vec<IoTDevice>, String>)
        ensures
            r matches Ok(v) && v@.len() == self.devices@.len() && (forall|j: int|
                0 <= j < v@.len() ==> device_eq(#[trigger] v@[j], self.devices@[j])),
    {
        let mut out: Vec<IoTDevice> = Vec::new();
        let mut i: usize = 0;
        while i < self.devices.len()
            invariant
                i <= self.devices@.len(),
                out@.len() == i,
                forall|j: int| 0 <= j < i ==> device_eq(#[trigger] out@[j], self.devices@[j]),
            decreases self.devices@.len() - i,
        {
            out.push(self.devices[i].clone());
            i = i + 1;
        }
        Ok(out)
    }

    /// Switch a device on or off. Only `power_on` and `power_off` are
    /// commands; an unknown device or command is rejected.
    pub fn control_device(&mut self, device_id: &str, command: &str) -> (r: Result<
        ControlResult,
        String,
    >)
        ensures
            ({
                let s = old(self).devices@;
                let i = device_idx(s, device_id@);
                match r {
                    Ok(res) => {
                        &&& i < s.len()
                        &&& (command@ == "power_on"@ || command@ == "power_off"@)
                        &&& final(self).devices@.len() == s.len()
                        &&& forall|j: int|
                            0 <= j < s.len() && j != i ==> final(self).devices@[j] == s[j]
                        &&& device_powered(s[i], final(self).devices@[i], command@ == "power_on"@)
                        &&& res.success
                        &&& res.message@ == "Device "@ + device_id@ + (if command@ == "power_on"@ {
                            " powered on"@
                        } else {
                            " powered off"@
                        })
                        &&& final(self).name == old(self).name
                    },
                    Err(m) => {
                        &&& *final(self) == *old(self)
                        &&& if i < s.len() {
                            command@ != "power_on"@ && command@ != "power_off"@ && m@
                                == "Unknown command: "@ + command@
                        } else {
                            m@ == "Device "@ + device_id@ + " not found"@
                        }
                    },
                }
            }),
    {
        let n = self.devices.len();
        let mut i: usize = 0;
        while i < n
            invariant
                n == self.devices@.len(),
                i <= n,
                *self == *old(self),
                forall|j: int| 0 <= j < i ==> self.devices@[j].id@ != device_id@,
            decreases n - i,
        {
            if str_eq(self.devices[i].id.as_str(), device_id) {
                proof {
                    lemma_device_idx_is(self.devices@, device_id@, i as int);
                }
                let on = str_eq(command, "power_on");
                let off = str_eq(command, "power_off");
                if !on && !off {
                    let mut m = String::from_str("Unknown command: ");
                    m.append(command);
                    return Err(m);
                }
                let d = &self.devices[i];
                let updated = IoTDevice {
                    id: d.id.clone(),
                    name: d.name.clone(),
                    device_type: d.device_type.clone(),
                    location: d.location.clone(),
                    powered: on,
                    properties: clone_pairs(&d.properties),
                };
                proof {
                    assert(device_powered(
                        old(self).devices@[i as int],
                        updated,
                        command@ == "power_on"@,
                    ));
                }
                self.devices.set(i, updated);
                let mut m = String::from_str("Device ");
                m.append(device_id);
                if on {
                    m.append(" powered on");
                } else {
                    m.append(" powered off");
                }
                return Ok(ControlResult { success: true, message: m });
            }
            i = i + 1;
        }
        proof {
            lemma_device_idx_is(self.devices@, device_id@, n as int);
        }
        let mut m = String::from_str("Device ");
        m.append(device_id);
        m.append(" not found");
        Err(m)
    }

    /// Fetch one device's current record.
    pub fn get_device_status(&self, device_id: &str) -> (r: Result<IoTDevice, String>)
        ensures
            ({
                let s = self.devices@;
                let i = device_idx(s, device_id@);
                match r {
                    Ok(d) => i < s.len() && device_eq(d, s[i]),
                    Err(m) => i == s.len() && m@ == "Device "@ + device_id@ + " not found"@,
                }
            }),
    {
        let n = self.devices.len();
        let mut i: usize = 0;
        while i < n
            invariant
                n == self.devices@.len(),
                i <= n,
                forall|j: int| 0 <= j < i ==> self.devices@[j].id@ != device_id@,
            decreases n - i,
        {
            if str_eq(self.devices[i].id.as_str(), device_id) {
                proof {
                    lemma_device_idx_is(self.devices@, device_id@, i as int);
                }
                return Ok(self.devices[i].clone());
            }
            i = i + 1;
        }
        proof {
            lemma_device_idx_is(self.devices@, device_id@, n as int);
        }
        let mut m = String::from_str("Device ");
        m.append(device_id);
        m.append(" not found");
        Err(m)
    }
}

} // verus!
