//! Adapting skills to devices: device types and configurations, rules that
//! rename parameters and commands between device types, and the registry
//! of devices.

use vstd::prelude::*;
use crate::json::JsonMap;
use crate::ids::{is_uuid_v4_text, new_uuid_v4};
use crate::skills::definition::{any_constraint_holds, constraints_allow, texts, DeviceConstraint};
use crate::skills::error::{Result, SkillsError};
use crate::strmap::{assign, lookup, StrMap};
use crate::text::{str_equal, string_of};

verus! {

/// Kind of a device.
#[derive(Debug, Clone, PartialEq, Eq, Hash)]
pub enum DeviceType {
    /// Sensor.
    Sensor,
    /// Actuator.
    Actuator,
    /// Controller.
    Controller,
    /// Gateway.
    Gateway,
    /// Display.
    Display,
    /// Storage device.
    Storage,
    /// Network device.
    Network,
    /// Any other kind, by name.
    Custom(String),
}

/// The text of a device type.
pub open spec fn device_text(d: DeviceType) -> Seq<char> {
    match d {
        DeviceType::Sensor => "sensor"@,
        DeviceType::Actuator => "actuator"@,
        DeviceType::Controller => "controller"@,
        DeviceType::Gateway => "gateway"@,
        DeviceType::Display => "display"@,
        DeviceType::Storage => "storage"@,
        DeviceType::Network => "network"@,
        DeviceType::Custom(name) => "custom:"@ + name@,
    }
}

/// A device type as plain values: its variant and, for `Custom`, its name.
pub open spec fn device_key(d: DeviceType) -> (int, Seq<char>) {
    match d {
        DeviceType::Sensor => (0, Seq::empty()),
        DeviceType::Actuator => (1, Seq::empty()),
        DeviceType::Controller => (2, Seq::empty()),
        DeviceType::Gateway => (3, Seq::empty()),
        DeviceType::Display => (4, Seq::empty()),
        DeviceType::Storage => (5, Seq::empty()),
        DeviceType::Network => (6, Seq::empty()),
        DeviceType::Custom(name) => (7, name@),
    }
}

impl DeviceType {
    /// The text of the type: its lowercase name, or `custom:` and the name.
    pub fn to_string(&self) -> (r: String)
        ensures
            r@ == device_text(*self),
    {
        match self {
            DeviceType::Sensor => string_of("sensor"),
            DeviceType::Actuator => string_of("actuator"),
            DeviceType::Controller => string_of("controller"),
            DeviceType::Gateway => string_of("gateway"),
            DeviceType::Display => string_of("display"),
            DeviceType::Storage => string_of("storage"),
            DeviceType::Network => string_of("network"),
            DeviceType::Custom(name) => {
                let mut s = string_of("custom:");
                s.append(name.as_str());
                s
            },
        }
    }

    /// Whether two types are the same.
    pub fn same_as(&self, other: &DeviceType) -> (r: bool)
        ensures
            r == (device_key(*self) == device_key(*other)),
    {
        match (self, other) {
            (DeviceType::Sensor, DeviceType::Sensor) => true,
            (DeviceType::Actuator, DeviceType::Actuator) => true,
            (DeviceType::Controller, DeviceType::Controller) => true,
            (DeviceType::Gateway, DeviceType::Gateway) => true,
            (DeviceType::Display, DeviceType::Display) => true,
            (DeviceType::Storage, DeviceType::Storage) => true,
            (DeviceType::Network, DeviceType::Network) => true,
            (DeviceType::Custom(a), DeviceType::Custom(b)) => str_equal(a.as_str(), b.as_str()),
            _ => false,
        }
    }
}

/// A device.
#[derive(Debug, Clone)]
pub struct DeviceConfig {
    /// Identifier.
    pub id: String,
    /// Name.
    pub name: String,
    /// Kind.
    pub device_type: DeviceType,
    /// Firmware version.
    pub firmware_version: String,
    /// Hardware version.
    pub hardware_version: String,
    /// What the device can do.
    pub capabilities: Vec<String>,
    /// Device parameters.
    pub parameters: JsonMap,
    /// Whether it is connected.
    pub connected: bool,
    /// Free-form data.
    pub metadata: StrMap,
}

impl DeviceConfig {
    /// A disconnected device with firmware `1.0.0`, hardware `1.0` and no
    /// capabilities, parameters or data.
    pub fn new(id: String, name: String, device_type: DeviceType) -> (r: Self)
        ensures
            r.id == id,
            r.name == name,
            r.device_type == device_type,
            r.firmware_version@ == "1.0.0"@,
            r.hardware_version@ == "1.0"@,
            r.capabilities@.len() == 0,
            r.parameters.wf(),
            r.parameters.keys().len() == 0,
            !r.connected,
            r.metadata.wf(),
            r.metadata@.len() == 0,
    {
        DeviceConfig {
            id,
            name,
            device_type,
            firmware_version: string_of("1.0.0"),
            hardware_version: string_of("1.0"),
            capabilities: Vec::new(),
            parameters: JsonMap::new(),
            connected: false,
            metadata: StrMap::new(),
        }
    }

    /// The same device with another firmware version.
    pub fn with_firmware(self, version: String) -> (r: Self)
        ensures
            r == (DeviceConfig { firmware_version: version, ..self }),
    {
        let mut d = self;
        d.firmware_version = version;
        d
    }

    /// Adds a capability.
    pub fn add_capability(&mut self, capability: String)
        ensures
            final(self).capabilities@ == old(self).capabilities@.push(capability),
            final(self).id == old(self).id,
            final(self).device_type == old(self).device_type,
            final(self).firmware_version == old(self).firmware_version,
    {
        self.capabilities.push(capability);
    }

    /// Sets a parameter; the other parameters keep their values.
    pub fn set_parameter(&mut self, key: String, value: serde_json::Value)
        requires
            old(self).parameters.wf(),
        ensures
            final(self).parameters.wf(),
            final(self).parameters.entry(key@) == Some(value),
            forall|k: Seq<char>| k != key@ ==> final(self).parameters.entry(k) == old(self).parameters.entry(k),
            final(self).capabilities == old(self).capabilities,
            final(self).id == old(self).id,
            final(self).device_type == old(self).device_type,
            final(self).firmware_version == old(self).firmware_version,
    {
        self.parameters.insert(key, value);
    }

    /// Whether the device has `capability`.
    pub fn supports_capability(&self, capability: &str) -> (r: bool)
        ensures
            r == texts(self.capabilities@).contains(capability@),
    {
        let mut i: usize = 0;
        while i < self.capabilities.len()
            invariant
                i <= self.capabilities@.len(),
                forall|j: int| 0 <= j < i ==> (#[trigger] self.capabilities@[j])@ != capability@,
            decreases self.capabilities.len() - i,
        {
            if str_equal(self.capabilities[i].as_str(), capability) {
                assert(texts(self.capabilities@)[i as int] == capability@);
                return true;
            }
            i = i + 1;
        }
        assert forall|j: int| 0 <= j < texts(self.capabilities@).len() implies #[trigger] texts(
            self.capabilities@,
        )[j] != capability@ by {
            assert(texts(self.capabilities@)[j] == self.capabilities@[j]@);
        }
        false
    }
}

/// A rule that adapts parameters and commands from one device type to another.
#[derive(Debug, Clone)]
pub struct AdaptationRule {
    /// Identifier.
    pub id: String,
    /// Name.
    pub name: String,
    /// Type adapted from.
    pub source_device_type: DeviceType,
    /// Type adapted to.
    pub target_device_type: DeviceType,
    /// New names of parameters.
    pub parameter_mapping: StrMap,
    /// New names of commands.
    pub command_mapping: StrMap,
    /// Condition under which the rule applies, if any.
    pub condition: Option<String>,
    /// Priority: higher wins.
    pub priority: i32,
}

impl AdaptationRule {
    /// The rule's invariant: its maps keep theirs.
    pub open spec fn wf(&self) -> bool {
        self.parameter_mapping.wf() && self.command_mapping.wf()
    }

    /// A rule with a fresh random identifier, no mappings, no condition and
    /// priority zero.
    pub fn new(name: String, source: DeviceType, target: DeviceType) -> (r: Self)
        ensures
            r.wf(),
            is_uuid_v4_text(r.id@),
            r.name == name,
            r.source_device_type == source,
            r.target_device_type == target,
            r.parameter_mapping@.len() == 0,
            r.command_mapping@.len() == 0,
            r.condition is None,
            r.priority == 0,
    {
        AdaptationRule {
            id: new_uuid_v4(),
            name,
            source_device_type: source,
            target_device_type: target,
            parameter_mapping: StrMap::new(),
            command_mapping: StrMap::new(),
            condition: None,
            priority: 0,
        }
    }

    /// Renames parameter `source` to `target`.
    pub fn add_parameter_mapping(&mut self, source: String, target: String)
        requires
            old(self).wf(),
        ensures
            final(self).wf(),
            final(self).parameter_mapping@ == assign(old(self).parameter_mapping@, source@, target@),
            final(self).command_mapping@ == old(self).command_mapping@,
            final(self).priority == old(self).priority,
            final(self).source_device_type == old(self).source_device_type,
            final(self).target_device_type == old(self).target_device_type,
    {
        self.parameter_mapping.insert(source, target);
    }

    /// Renames command `source` to `target`.
    pub fn add_command_mapping(&mut self, source: String, target: String)
        requires
            old(self).wf(),
        ensures
            final(self).wf(),
            final(self).command_mapping@ == assign(old(self).command_mapping@, source@, target@),
            final(self).parameter_mapping@ == old(self).parameter_mapping@,
            final(self).priority == old(self).priority,
            final(self).source_device_type == old(self).source_device_type,
            final(self).target_device_type == old(self).target_device_type,
    {
        self.command_mapping.insert(source, target);
    }

    /// The same rule with another priority.
    pub fn with_priority(self, priority: i32) -> (r: Self)
        ensures
            r == (AdaptationRule { priority, ..self }),
    {
        let mut r = self;
        r.priority = priority;
        r
    }

    /// The name a parameter gets: its mapping, or itself.
    pub fn map_parameter_key(&self, key: &str) -> (r: String)
        requires
            self.wf(),
        ensures
            r@ == match lookup(self.parameter_mapping@, key@) {
                Some(v) => v,
                None => key@,
            },
    {
        match self.parameter_mapping.get(key) {
            Some(v) => v.clone(),
            None => string_of(key),
        }
    }

    /// The command to send: its mapping, or itself.
    pub fn apply_command_mapping(&self, command: &str) -> (r: String)
        requires
            self.wf(),
        ensures
            r@ == match lookup(self.command_mapping@, command@) {
                Some(v) => v,
                None => command@,
            },
    {
        match self.command_mapping.get(command) {
            Some(v) => v.clone(),
            None => string_of(command),
        }
    }
}

/// Whether `r` adapts from `source` to `target`.
pub open spec fn rule_matches(r: AdaptationRule, source: DeviceType, target: DeviceType) -> bool {
    device_key(r.source_device_type) == device_key(source) && device_key(r.target_device_type)
        == device_key(target)
}

/// Whether position `i` holds the rule chosen for `source` and `target`: it
/// matches, no matching rule has a higher priority, and no later matching
/// rule has the same priority.
pub open spec fn is_chosen_rule(rules: Seq<AdaptationRule>, source: DeviceType, target: DeviceType, i: int) -> bool {
    &&& 0 <= i < rules.len()
    &&& rule_matches(rules[i], source, target)
    &&& forall|j: int|
        0 <= j < rules.len() && rule_matches(#[trigger] rules[j], source, target) ==> rules[j].priority
            <= rules[i].priority
    &&& forall|j: int|
        i < j < rules.len() && rule_matches(#[trigger] rules[j], source, target) ==> rules[j].priority
            < rules[i].priority
}

/// Chooses adaptation rules between device types.
#[derive(Debug)]
pub struct DeviceAdapter {
    rules: Vec<AdaptationRule>,
}

impl DeviceAdapter {
    /// The rules, in the order they were added.
    pub closed spec fn all_rules(&self) -> Seq<AdaptationRule> {
        self.rules@
    }

    /// The adapter's invariant: every rule keeps its own.
    pub open spec fn wf(&self) -> bool {
        forall|i: int| 0 <= i < self.all_rules().len() ==> (#[trigger] self.all_rules()[i]).wf()
    }

    /// An adapter with no rules.
    pub fn new() -> (r: Self)
        ensures
            r.wf(),
            r.all_rules().len() == 0,
    {
        DeviceAdapter { rules: Vec::new() }
    }

    /// Adds a rule.
    pub fn add_rule(&mut self, rule: AdaptationRule)
        requires
            old(self).wf(),
            rule.wf(),
        ensures
            final(self).wf(),
            final(self).all_rules() == old(self).all_rules().push(rule),
    {
        let ghost r0 = rule;
        self.rules.push(rule);
        assert forall|i: int| 0 <= i < self.all_rules().len() implies (#[trigger] self.all_rules()[i]).wf() by {
            if i < old(self).all_rules().len() {
                assert(self.all_rules()[i] == old(self).all_rules()[i]);
            } else {
                assert(self.all_rules()[i] == r0);
            }
        }
    }

    fn find_rule_index(&self, source: &DeviceType, target: &DeviceType) -> (r: Option<usize>)
        ensures
            r is None ==> forall|j: int|
                0 <= j < self.all_rules().len() ==> !rule_matches(#[trigger] self.all_rules()[j], *source, *target),
            r matches Some(i) ==> is_chosen_rule(self.all_rules(), *source, *target, i as int),
    {
        let mut best: Option<usize> = None;
        let mut i: usize = 0;
        while i < self.rules.len()
            invariant
                i <= self.rules@.len(),
                best is None ==> forall|j: int| 0 <= j < i ==> !rule_matches(#[trigger] self.rules@[j], *source, *target),
                best matches Some(b) ==> b < i && rule_matches(self.rules@[b as int], *source, *target)
                    && (forall|j: int| 0 <= j < i && rule_matches(#[trigger] self.rules@[j], *source, *target)
                    ==> self.rules@[j].priority <= self.rules@[b as int].priority) && (forall|j: int|
                    b < j < i && rule_matches(#[trigger] self.rules@[j], *source, *target) ==> self.rules@[j].priority
                    < self.rules@[b as int].priority),
            decreases self.rules.len() - i,
        {
            let r = &self.rules[i];
            if r.source_device_type.same_as(source) && r.target_device_type.same_as(target) {
                match best {
                    Some(b) => {
                        if r.priority >= self.rules[b].priority {
                            best = Some(i);
                        }
                    },
                    None => {
                        best = Some(i);
                    },
                }
            }
            i = i + 1;
        }
        best
    }

    /// The rule from `source` to `target` with the highest priority, the last
    /// one added among equals.
    pub fn find_rule(&self, source: &DeviceType, target: &DeviceType) -> (r: Option<&AdaptationRule>)
        ensures
            r is None ==> forall|j: int|
                0 <= j < self.all_rules().len() ==> !rule_matches(#[trigger] self.all_rules()[j], *source, *target),
            r matches Some(rule) ==> exists|i: int|
                is_chosen_rule(self.all_rules(), *source, *target, i) && #[trigger] self.all_rules()[i] == *rule,
    {
        match self.find_rule_index(source, target) {
            Some(i) => Some(&self.rules[i]),
            None => None,
        }
    }

    /// The command to send to a `target` device for `command` meant for a
    /// `source` device: mapped by the chosen rule, or unchanged.
    pub fn adapt_command(&self, source: &DeviceType, target: &DeviceType, command: &str) -> (r: String)
        requires
            self.wf(),
        ensures
            (forall|j: int|
                0 <= j < self.all_rules().len() ==> !rule_matches(#[trigger] self.all_rules()[j], *source, *target))
                ==> r@ == command@,
            forall|i: int|
                is_chosen_rule(self.all_rules(), *source, *target, i) ==> r@ == match lookup(
                    (#[trigger] self.all_rules()[i]).command_mapping@,
                    command@,
                ) {
                    Some(v) => v,
                    None => command@,
                },
    {
        match self.find_rule_index(source, target) {
            Some(i) => {
                proof {
                    assert forall|k: int| is_chosen_rule(self.all_rules(), *source, *target, k) implies k == i by {
                        if k < i {
                            assert(self.rules@[i as int].priority < self.rules@[k].priority);
                        } else if k > i {
                            assert(self.rules@[k].priority < self.rules@[i as int].priority);
                        }
                    }
                    assert(self.all_rules()[i as int].wf());
                }
                self.rules[i].apply_command_mapping(command)
            },
            None => string_of(command),
        }
    }

    /// Whether a skill, by its name and device constraints, can run on
    /// `device`: some constraint must accept the device's type, firmware
    /// version and capabilities; otherwise the device is reported
    /// incompatible.
    pub fn check_compatibility(
        &self,
        skill_name: &str,
        skill_constraints: &Vec<DeviceConstraint>,
        device: &DeviceConfig,
    ) -> (r: Result<bool>)
        ensures
            r is Ok <==> any_constraint_holds(
                skill_constraints@,
                device_text(device.device_type),
                device.firmware_version@,
                texts(device.capabilities@),
            ),
            r matches Ok(b) ==> b,
            r matches Err(e) ==> e matches SkillsError::DeviceIncompatible(m) && m@ == "设备 "@
                + device.name@ + " 不满足技能 "@ + skill_name@ + " 的约束"@,
    {
        let type_text = device.device_type.to_string();
        let compatible = constraints_allow(
            skill_constraints,
            type_text.as_str(),
            device.firmware_version.as_str(),
            device.capabilities.as_slice(),
        );
        if !compatible {
            let mut m = string_of("设备 ");
            m.append(device.name.as_str());
            m.append(" 不满足技能 ");
            m.append(skill_name);
            m.append(" 的约束");
            return Err(SkillsError::DeviceIncompatible(m));
        }
        Ok(true)
    }

    /// Every rule.
    pub fn get_rules(&self) -> (r: &[AdaptationRule])
        ensures
            r@ == self.all_rules(),
    {
        self.rules.as_slice()
    }
}

impl Default for DeviceAdapter {
    fn default() -> (r: Self)
        ensures
            r.wf(),
            r.all_rules().len() == 0,
    {
        Self::new()
    }
}

/// Whether a device of identifier `id` is among `s`.
pub open spec fn has_device(s: Seq<DeviceConfig>, id: Seq<char>) -> bool {
    exists|i: int| 0 <= i < s.len() && (#[trigger] s[i]).id@ == id
}

/// Keeps one configuration per device.
#[derive(Debug)]
pub struct DeviceRegistry {
    devices: Vec<DeviceConfig>,
}

impl DeviceRegistry {
    /// The devices, in the order their identifiers were first registered.
    pub closed spec fn all(&self) -> Seq<DeviceConfig> {
        self.devices@
    }

    /// The registry's invariant: one device per identifier.
    pub open spec fn wf(&self) -> bool {
        forall|i: int, j: int|
            0 <= i < self.all().len() && 0 <= j < self.all().len() && i != j ==> (#[trigger] self.all()[i]).id@
                != (#[trigger] self.all()[j]).id@
    }

    /// An empty registry.
    pub fn new() -> (r: Self)
        ensures
            r.wf(),
            r.all().len() == 0,
    {
        DeviceRegistry { devices: Vec::new() }
    }

    fn position(&self, id: &str) -> (r: Option<usize>)
        ensures
            r is None <==> !has_device(self.all(), id@),
            r matches Some(i) ==> i < self.all().len() && self.all()[i as int].id@ == id@,
    {
        let mut i: usize = 0;
        while i < self.devices.len()
            invariant
                i <= self.devices@.len(),
                forall|j: int| 0 <= j < i ==> (#[trigger] self.devices@[j]).id@ != id@,
            decreases self.devices.len() - i,
        {
            if str_equal(self.devices[i].id.as_str(), id) {
                return Some(i);
            }
            i = i + 1;
        }
        None
    }

    /// Stores a device under its identifier, replacing one of the same
    /// identifier, and returns the identifier.
    pub fn register(&mut self, device: DeviceConfig) -> (r: String)
        requires
            old(self).wf(),
        ensures
            final(self).wf(),
            r@ == device.id@,
            has_device(final(self).all(), device.id@),
            forall|i: int|
                0 <= i < final(self).all().len() && (#[trigger] final(self).all()[i]).id@ == device.id@
                    ==> final(self).all()[i] == device,
            forall|i: int|
                0 <= i < old(self).all().len() && (#[trigger] old(self).all()[i]).id@ != device.id@
                    ==> final(self).all()[i] == old(self).all()[i],
            has_device(old(self).all(), device.id@) ==> final(self).all().len() == old(self).all().len(),
            !has_device(old(self).all(), device.id@) ==> final(self).all().len() == old(self).all().len() + 1,
    {
        let id = device.id.clone();
        match self.position(id.as_str()) {
            Some(i) => {
                self.devices.set(i, device);
                assert(self.all()[i as int].id@ == id@);
            },
            None => {
                self.devices.push(device);
                assert(self.all()[self.all().len() - 1].id@ == id@);
            },
        }
        id
    }

    /// The device of identifier `id`.
    pub fn get(&self, id: &String) -> (r: Option<&DeviceConfig>)
        ensures
            r is Some <==> has_device(self.all(), id@),
            r matches Some(d) ==> d.id@ == id@ && self.all().contains(*d),
    {
        match self.position(id.as_str()) {
            Some(i) => Some(&self.devices[i]),
            None => None,
        }
    }

    /// The device of identifier `id`, to change in place; the registry
    /// then holds the changed device at its position.
    pub fn get_mut(&mut self, id: &String) -> (r: Option<&mut DeviceConfig>)
        ensures
            r is Some <==> has_device(old(self).all(), id@),
            r is None ==> final(self).all() == old(self).all(),
            r matches Some(d) ==> exists|i: int|
                0 <= i < old(self).all().len() && (#[trigger] old(self).all()[i]).id@ == id@ && *d
                    == old(self).all()[i] && final(self).all() == old(self).all().update(i, *final(d)),
    {
        match self.position(id.as_str()) {
            Some(i) => Some(&mut self.devices[i]),
            None => None,
        }
    }

    /// Removes the device of identifier `id` and returns it.
    pub fn remove(&mut self, id: &String) -> (r: Option<DeviceConfig>)
        requires
            old(self).wf(),
        ensures
            final(self).wf(),
            r is Some <==> has_device(old(self).all(), id@),
            r matches Some(d) ==> d.id@ == id@ && exists|i: int|
                0 <= i < old(self).all().len() && #[trigger] old(self).all()[i] == d
                    && final(self).all() == old(self).all().remove(i),
            r is None ==> final(self).all() == old(self).all(),
            !has_device(final(self).all(), id@),
    {
        match self.position(id.as_str()) {
            Some(i) => {
                let ghost before = self.devices@;
                let d = self.devices.remove(i);
                assert(before[i as int] == d);
                assert forall|k: int| 0 <= k < self.devices@.len() implies (#[trigger] self.devices@[k]).id@ != id@ by {
                    if k < i {
                        assert(self.devices@[k] == before[k]);
                    } else {
                        assert(self.devices@[k] == before[k + 1]);
                    }
                }
                assert forall|a: int, b: int|
                    0 <= a < self.all().len() && 0 <= b < self.all().len() && a != b implies (
                    #[trigger] self.all()[a]).id@ != (#[trigger] self.all()[b]).id@ by {
                    let a2 = if a < i { a } else { a + 1 };
                    let b2 = if b < i { b } else { b + 1 };
                    assert(self.all()[a] == before[a2]);
                    assert(self.all()[b] == before[b2]);
                }
                Some(d)
            },
            None => None,
        }
    }

    /// Every device.
    pub fn list(&self) -> (r: Vec<&DeviceConfig>)
        ensures
            r@.len() == self.all().len(),
            forall|i: int| 0 <= i < r@.len() ==> *(#[trigger] r@[i]) == self.all()[i],
    {
        let mut r: Vec<&DeviceConfig> = Vec::new();
        let mut i: usize = 0;
        while i < self.devices.len()
            invariant
                i <= self.devices@.len(),
                r@.len() == i,
                forall|k: int| 0 <= k < i ==> *(#[trigger] r@[k]) == self.devices@[k],
            decreases self.devices.len() - i,
        {
            r.push(&self.devices[i]);
            i = i + 1;
        }
        r
    }

    /// The devices of a type, in order.
    pub fn get_by_type(&self, device_type: &DeviceType) -> (r: Vec<&DeviceConfig>)
        ensures
            r@.len() == self.all().filter(|d: DeviceConfig| device_key(d.device_type) == device_key(*device_type)).len(),
            forall|i: int|
                0 <= i < r@.len() ==> *(#[trigger] r@[i]) == self.all().filter(
                    |d: DeviceConfig| device_key(d.device_type) == device_key(*device_type),
                )[i],
    {
        let ghost keep = |d: DeviceConfig| device_key(d.device_type) == device_key(*device_type);
        let mut r: Vec<&DeviceConfig> = Vec::new();
        let mut i: usize = 0;
        while i < self.devices.len()
            invariant
                i <= self.devices@.len(),
                keep == (|d: DeviceConfig| device_key(d.device_type) == device_key(*device_type)),
                r@.len() == self.devices@.subrange(0, i as int).filter(keep).len(),
                forall|k: int| 0 <= k < r@.len() ==> *(#[trigger] r@[k]) == self.devices@.subrange(0, i as int).filter(keep)[k],
            decreases self.devices.len() - i,
        {
            proof {
                assert(self.devices@.subrange(0, i as int + 1) =~= self.devices@.subrange(0, i as int).push(self.devices@[i as int]));
                self.devices@.subrange(0, i as int).lemma_filter_push(self.devices@[i as int], keep);
            }
            if self.devices[i].device_type.same_as(device_type) {
                r.push(&self.devices[i]);
            }
            i = i + 1;
        }
        assert(self.devices@.subrange(0, i as int) =~= self.devices@);
        r
    }

    /// How many devices are registered.
    pub fn count(&self) -> (r: usize)
        ensures
            r == self.all().len(),
    {
        self.devices.len()
    }
}

impl Default for DeviceRegistry {
    fn default() -> (r: Self)
        ensures
            r.wf(),
            r.all().len() == 0,
    {
        Self::new()
    }
}

} // verus!
