//! Skills as stored: their definition, status, and the registry.

use vstd::prelude::*;
use crate::ids::{is_uuid_v4_text, new_uuid_v4};
use crate::json::empty_json_object;
use crate::skills::definition::texts;
use crate::skills::error::{Result, SkillsError};
use crate::text::{str_equal, string_of};

verus! {

/// Status of a skill.
#[derive(Debug, Clone, Copy, PartialEq, Eq, Structural)]
pub enum SkillStatus {
    /// Being written.
    Draft,
    /// Checked.
    Verified,
    /// In use.
    Published,
    /// No longer to be used.
    Deprecated,
}

/// A skill definition.
#[derive(Debug, Clone)]
pub struct SkillDefinition {
    /// Identifier.
    pub id: String,
    /// Name.
    pub name: String,
    /// Description.
    pub description: String,
    /// Version.
    pub version: String,
    /// Steps to run.
    pub steps: Vec<String>,
    /// How results are judged.
    pub judgment_logic: String,
    /// How results are checked.
    pub verification_standard: String,
    /// Device types it runs on; `*` means any.
    pub supported_devices: Vec<String>,
    /// Status.
    pub status: SkillStatus,
    /// Free-form data.
    pub metadata: serde_json::Value,
}

impl Default for SkillDefinition {
    /// A draft with a fresh random identifier, version `1.0.0`, no steps,
    /// for any device, with empty texts and an empty JSON object as data.
    fn default() -> (r: Self)
        ensures
            is_uuid_v4_text(r.id@),
            r.name@.len() == 0,
            r.description@.len() == 0,
            r.version@ == "1.0.0"@,
            r.steps@.len() == 0,
            r.judgment_logic@.len() == 0,
            r.verification_standard@.len() == 0,
            texts(r.supported_devices@) == seq!["*"@],
            r.status == SkillStatus::Draft,
    {
        let mut devices: Vec<String> = Vec::new();
        devices.push(string_of("*"));
        let r = SkillDefinition {
            id: new_uuid_v4(),
            name: String::new(),
            description: String::new(),
            version: string_of("1.0.0"),
            steps: Vec::new(),
            judgment_logic: String::new(),
            verification_standard: String::new(),
            supported_devices: devices,
            status: SkillStatus::Draft,
            metadata: empty_json_object(),
        };
        assert(texts(r.supported_devices@) =~= seq!["*"@]);
        r
    }
}

/// A stored skill.
#[derive(Debug, Clone)]
pub struct Skill {
    /// Its definition.
    pub definition: SkillDefinition,
}

impl Skill {
    /// A skill with `definition`.
    pub fn new(definition: SkillDefinition) -> (r: Self)
        ensures
            r.definition == definition,
    {
        Skill { definition }
    }

    /// Identifier.
    pub fn id(&self) -> (r: &str)
        ensures
            r@ == self.definition.id@,
    {
        self.definition.id.as_str()
    }

    /// Name.
    pub fn name(&self) -> (r: &str)
        ensures
            r@ == self.definition.name@,
    {
        self.definition.name.as_str()
    }

    /// Steps.
    pub fn steps(&self) -> (r: &[String])
        ensures
            r@ == self.definition.steps@,
    {
        self.definition.steps.as_slice()
    }

    /// Whether the skill runs on `device_type`: it lists the type, or `*`.
    pub fn is_supported(&self, device_type: &str) -> (r: bool)
        ensures
            r == (texts(self.definition.supported_devices@).contains("*"@) || texts(
                self.definition.supported_devices@,
            ).contains(device_type@)),
    {
        let list = &self.definition.supported_devices;
        let mut star = false;
        let mut found = false;
        let mut i: usize = 0;
        while i < list.len()
            invariant
                i <= list@.len(),
                star <==> exists|j: int| 0 <= j < i && (#[trigger] list@[j])@ == "*"@,
                found <==> exists|j: int| 0 <= j < i && (#[trigger] list@[j])@ == device_type@,
            decreases list.len() - i,
        {
            if str_equal(list[i].as_str(), "*") {
                star = true;
            }
            if str_equal(list[i].as_str(), device_type) {
                found = true;
            }
            i = i + 1;
        }
        proof {
            if star {
                let j = choose|j: int| 0 <= j < i && (#[trigger] list@[j])@ == "*"@;
                assert(texts(list@)[j] == "*"@);
            }
            if found {
                let j = choose|j: int| 0 <= j < i && (#[trigger] list@[j])@ == device_type@;
                assert(texts(list@)[j] == device_type@);
            }
            if texts(list@).contains("*"@) {
                let j = choose|j: int| 0 <= j < texts(list@).len() && texts(list@)[j] == "*"@;
                assert(list@[j]@ == "*"@);
            }
            if texts(list@).contains(device_type@) {
                let j = choose|j: int| 0 <= j < texts(list@).len() && texts(list@)[j] == device_type@;
                assert(list@[j]@ == device_type@);
            }
        }
        star || found
    }
}

/// Keeps one skill per identifier.
#[derive(Debug)]
pub struct SkillRegistry {
    skills: Vec<Skill>,
}

/// Whether a skill of identifier `id` is among `s`.
pub open spec fn has_skill(s: Seq<Skill>, id: Seq<char>) -> bool {
    exists|i: int| 0 <= i < s.len() && (#[trigger] s[i]).definition.id@ == id
}

impl SkillRegistry {
    /// The skills, in the order their identifiers were first registered.
    pub closed spec fn all(&self) -> Seq<Skill> {
        self.skills@
    }

    /// The registry's invariant: one skill per identifier.
    pub open spec fn wf(&self) -> bool {
        forall|i: int, j: int|
            0 <= i < self.all().len() && 0 <= j < self.all().len() && i != j ==> (#[trigger] self.all()[i]).definition.id@
                != (#[trigger] self.all()[j]).definition.id@
    }

    /// An empty registry.
    pub fn new() -> (r: Self)
        ensures
            r.wf(),
            r.all().len() == 0,
    {
        SkillRegistry { skills: Vec::new() }
    }

    fn position(&self, id: &str) -> (r: Option<usize>)
        ensures
            r is None <==> !has_skill(self.all(), id@),
            r matches Some(i) ==> i < self.all().len() && self.all()[i as int].definition.id@ == id@,
    {
        let mut i: usize = 0;
        while i < self.skills.len()
            invariant
                i <= self.skills@.len(),
                forall|j: int| 0 <= j < i ==> (#[trigger] self.skills@[j]).definition.id@ != id@,
            decreases self.skills.len() - i,
        {
            if str_equal(self.skills[i].definition.id.as_str(), id) {
                return Some(i);
            }
            i = i + 1;
        }
        None
    }

    /// Stores a skill under its definition's identifier, replacing one of
    /// the same identifier, and returns the identifier.
    pub fn register(&mut self, definition: SkillDefinition) -> (r: Result<String>)
        requires
            old(self).wf(),
        ensures
            final(self).wf(),
            r matches Ok(id) && id@ == definition.id@,
            has_skill(final(self).all(), definition.id@),
            forall|i: int|
                0 <= i < final(self).all().len() && (#[trigger] final(self).all()[i]).definition.id@
                    == definition.id@ ==> final(self).all()[i].definition == definition,
            forall|i: int|
                0 <= i < old(self).all().len() && (#[trigger] old(self).all()[i]).definition.id@
                    != definition.id@ ==> final(self).all()[i] == old(self).all()[i],
            has_skill(old(self).all(), definition.id@) ==> final(self).all().len() == old(self).all().len(),
            !has_skill(old(self).all(), definition.id@) ==> final(self).all().len() == old(self).all().len() + 1,
    {
        let id = definition.id.clone();
        let ghost d = definition;
        let skill = Skill::new(definition);
        match self.position(id.as_str()) {
            Some(i) => {
                self.skills.set(i, skill);
                assert(self.all()[i as int].definition.id@ == id@);
            },
            None => {
                self.skills.push(skill);
                assert(self.all()[self.all().len() - 1].definition.id@ == id@);
            },
        }
        Ok(id)
    }

    /// The skill of identifier `id`.
    pub fn get(&self, id: &str) -> (r: Result<&Skill>)
        ensures
            r is Ok <==> has_skill(self.all(), id@),
            r matches Ok(s) ==> s.definition.id@ == id@ && self.all().contains(*s),
            r matches Err(e) ==> e matches SkillsError::NotFound(m) && m@ == id@,
    {
        match self.position(id) {
            Some(i) => Ok(&self.skills[i]),
            None => Err(SkillsError::NotFound(string_of(id))),
        }
    }

    /// The identifiers of the skills.
    pub fn list(&self) -> (r: Vec<String>)
        ensures
            r@.len() == self.all().len(),
            forall|i: int| 0 <= i < r@.len() ==> (#[trigger] r@[i])@ == self.all()[i].definition.id@,
    {
        let mut r: Vec<String> = Vec::new();
        let mut i: usize = 0;
        while i < self.skills.len()
            invariant
                i <= self.skills@.len(),
                r@.len() == i,
                forall|k: int| 0 <= k < i ==> (#[trigger] r@[k])@ == self.skills@[k].definition.id@,
            decreases self.skills.len() - i,
        {
            r.push(self.skills[i].definition.id.clone());
            i = i + 1;
        }
        r
    }

    /// How many skills are stored.
    pub fn count(&self) -> (r: usize)
        ensures
            r == self.all().len(),
    {
        self.skills.len()
    }
}

impl Default for SkillRegistry {
    fn default() -> (r: Self)
        ensures
            r.wf(),
            r.all().len() == 0,
    {
        Self::new()
    }
}

} // verus!
