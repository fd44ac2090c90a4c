//! Skill definitions: versions, parameter kinds, execution steps, outputs,
//! device constraints and dependencies.

use vstd::prelude::*;
use crate::json::JsonMap;
use crate::skills::error::{Result, SkillsError};
use crate::text::{
    decimal, decimal_string, lemma_decimal_digits, lemma_parse_decimal, lemma_split_around_sep,
    lemma_split_without_sep, lex_lt, parse_u32_spec, parse_u32_str, split_seq, split_str, str_equal,
    str_lt, string_of,
};

verus! {

/// A skill version `major.minor.patch`.
#[derive(Debug, Clone, Copy, PartialEq, Eq, Structural, PartialOrd, Ord, Hash)]
pub struct SkillVersion {
    /// Major version.
    pub major: u32,
    /// Minor version.
    pub minor: u32,
    /// Patch version.
    pub patch: u32,
}

/// What `SkillVersion::parse` reads from `s`: exactly three pieces between
/// dots, each a `u32` as `str::parse` reads it.
pub open spec fn version_parse_spec(s: Seq<char>) -> Option<SkillVersion> {
    let parts = split_seq(s, '.');
    if parts.len() != 3 {
        None
    } else {
        match (parse_u32_spec(parts[0]), parse_u32_spec(parts[1]), parse_u32_spec(parts[2])) {
            (Some(a), Some(b), Some(c)) => Some(SkillVersion { major: a, minor: b, patch: c }),
            _ => None,
        }
    }
}

/// The text of a version.
pub open spec fn version_text(v: SkillVersion) -> Seq<char> {
    decimal(v.major as nat) + "."@ + decimal(v.minor as nat) + "."@ + decimal(v.patch as nat)
}

/// Whether `a <= b` in the derived order: by major, then minor, then patch.
pub open spec fn version_le(a: SkillVersion, b: SkillVersion) -> bool {
    a.major < b.major || (a.major == b.major && (a.minor < b.minor || (a.minor == b.minor
        && a.patch <= b.patch)))
}

impl SkillVersion {
    /// The version `major.minor.patch`.
    pub fn new(major: u32, minor: u32, patch: u32) -> (r: Self)
        ensures
            r == (SkillVersion { major, minor, patch }),
    {
        SkillVersion { major, minor, patch }
    }

    /// Reads `major.minor.patch`; anything else is an invalid version.
    pub fn parse(version: &str) -> (r: Result<Self>)
        ensures
            match r {
                Ok(v) => version_parse_spec(version@) == Some(v),
                Err(SkillsError::InvalidVersion(m)) => version_parse_spec(version@) is None && m@
                    == version@,
                Err(_) => false,
            },
    {
        let parts = split_str(version, '.');
        if parts.len() != 3 {
            return Err(SkillsError::InvalidVersion(string_of(version)));
        }
        let major = match parse_u32_str(parts[0].as_str()) {
            Some(x) => x,
            None => {
                return Err(SkillsError::InvalidVersion(string_of(version)));
            },
        };
        let minor = match parse_u32_str(parts[1].as_str()) {
            Some(x) => x,
            None => {
                return Err(SkillsError::InvalidVersion(string_of(version)));
            },
        };
        let patch = match parse_u32_str(parts[2].as_str()) {
            Some(x) => x,
            None => {
                return Err(SkillsError::InvalidVersion(string_of(version)));
            },
        };
        Ok(SkillVersion { major, minor, patch })
    }

    /// The text `major.minor.patch`.
    pub fn to_string(&self) -> (r: String)
        ensures
            r@ == version_text(*self),
    {
        let mut s = decimal_string(self.major as u64);
        s.append(".");
        let b = decimal_string(self.minor as u64);
        s.append(b.as_str());
        s.append(".");
        let c = decimal_string(self.patch as u64);
        s.append(c.as_str());
        s
    }

    /// Whether this version can stand in for `other`: same major version and
    /// a minor version at least as new.
    pub fn is_compatible(&self, other: &SkillVersion) -> (r: bool)
        ensures
            r == (self.major == other.major && self.minor >= other.minor),
    {
        self.major == other.major && self.minor >= other.minor
    }

    /// Whether `self <= other` in the derived order.
    pub fn le(&self, other: &SkillVersion) -> (r: bool)
        ensures
            r == version_le(*self, *other),
    {
        self.major < other.major || (self.major == other.major && (self.minor < other.minor || (
        self.minor == other.minor && self.patch <= other.patch)))
    }
}

impl Default for SkillVersion {
    fn default() -> (r: Self)
        ensures
            r == (SkillVersion { major: 1, minor: 0, patch: 0 }),
    {
        Self::new(1, 0, 0)
    }
}

/// Kind of a parameter or output.
#[derive(Debug, Clone, PartialEq, Eq)]
pub enum ParamType {
    /// Text.
    String,
    /// Integer.
    Integer,
    /// Floating-point number.
    Float,
    /// Boolean.
    Boolean,
    /// Array.
    Array,
    /// Object.
    Object,
    /// One of the given values.
    Enum(Vec<String>),
}

/// One step of a skill.
#[derive(Debug, Clone)]
pub struct ExecutionStep {
    /// Identifier.
    pub id: String,
    /// Name.
    pub name: String,
    /// Description.
    pub description: String,
    /// Command to run.
    pub command: String,
    /// Whether the step must succeed.
    pub required: bool,
    /// Time limit, in seconds.
    pub timeout_secs: Option<u64>,
    /// How often to retry.
    pub retry_count: Option<u32>,
    /// Command that undoes the step.
    pub rollback_command: Option<String>,
}

impl ExecutionStep {
    /// A required step with no description, limit, retry or rollback.
    pub fn new(id: String, name: String, command: String) -> (r: Self)
        ensures
            r.id == id,
            r.name == name,
            r.command == command,
            r.description@.len() == 0,
            r.required,
            r.timeout_secs is None,
            r.retry_count is None,
            r.rollback_command is None,
    {
        ExecutionStep {
            id,
            name,
            description: String::new(),
            command,
            required: true,
            timeout_secs: None,
            retry_count: None,
            rollback_command: None,
        }
    }

    /// The same step with a time limit.
    pub fn with_timeout(self, secs: u64) -> (r: Self)
        ensures
            r == (ExecutionStep { timeout_secs: Some(secs), ..self }),
    {
        let mut s = self;
        s.timeout_secs = Some(secs);
        s
    }

    /// The same step with a retry count.
    pub fn with_retry(self, count: u32) -> (r: Self)
        ensures
            r == (ExecutionStep { retry_count: Some(count), ..self }),
    {
        let mut s = self;
        s.retry_count = Some(count);
        s
    }

    /// The same step with a rollback command.
    pub fn with_rollback(self, command: String) -> (r: Self)
        ensures
            r == (ExecutionStep { rollback_command: Some(command), ..self }),
    {
        let mut s = self;
        s.rollback_command = Some(command);
        s
    }
}

/// An output of a skill.
#[derive(Debug, Clone)]
pub struct OutputDefinition {
    /// Name.
    pub name: String,
    /// Kind.
    pub output_type: ParamType,
    /// Description.
    pub description: String,
}

impl OutputDefinition {
    /// An output with no description.
    pub fn new(name: String, output_type: ParamType) -> (r: Self)
        ensures
            r.name == name,
            r.output_type == output_type,
            r.description@.len() == 0,
    {
        OutputDefinition { name, output_type, description: String::new() }
    }
}

/// What a device must be for a skill.
#[derive(Debug, Clone)]
pub struct DeviceConstraint {
    /// Device type, or `*` for any.
    pub device_type: String,
    /// Oldest version allowed.
    pub min_version: Option<String>,
    /// Newest version allowed.
    pub max_version: Option<String>,
    /// Features the device must have.
    pub required_features: Vec<String>,
    /// Parameters to use on such a device.
    pub param_overrides: JsonMap,
}

/// Whether a device of type `device_type`, version `version` and features
/// `features` meets the constraint: the type matches or is `*`, the version
/// is within the bounds (compared as text), and every required feature is
/// present.
pub open spec fn constraint_holds(
    c_type: Seq<char>,
    c_min: Option<Seq<char>>,
    c_max: Option<Seq<char>>,
    required: Seq<Seq<char>>,
    device_type: Seq<char>,
    version: Seq<char>,
    features: Seq<Seq<char>>,
) -> bool {
    &&& (c_type == "*"@ || c_type == device_type)
    &&& (c_min matches Some(m) ==> !lex_lt(version, m))
    &&& (c_max matches Some(m) ==> !lex_lt(m, version))
    &&& forall|i: int| 0 <= i < required.len() ==> #[trigger] features.contains(required[i])
}

/// The characters of each string.
pub open spec fn texts(v: Seq<String>) -> Seq<Seq<char>> {
    v.map_values(|s: String| s@)
}

/// The characters of an optional string.
pub open spec fn opt_text(o: Option<String>) -> Option<Seq<char>> {
    match o {
        Some(s) => Some(s@),
        None => None,
    }
}

fn contains_text(list: &[String], s: &str) -> (r: bool)
    ensures
        r == texts(list@).contains(s@),
{
    let mut i: usize = 0;
    while i < list.len()
        invariant
            i <= list@.len(),
            forall|j: int| 0 <= j < i ==> (#[trigger] list@[j])@ != s@,
        decreases list.len() - i,
    {
        if str_equal(list[i].as_str(), s) {
            assert(texts(list@)[i as int] == s@);
            return true;
        }
        i = i + 1;
    }
    assert forall|j: int| 0 <= j < texts(list@).len() implies #[trigger] texts(list@)[j] != s@ by {
        assert(texts(list@)[j] == list@[j]@);
    }
    false
}

impl DeviceConstraint {
    /// A constraint on the type only, with no bounds, features or overrides.
    pub fn new(device_type: String) -> (r: Self)
        ensures
            r.device_type == device_type,
            r.min_version is None,
            r.max_version is None,
            r.required_features@.len() == 0,
            r.param_overrides.wf(),
            r.param_overrides.keys().len() == 0,
    {
        DeviceConstraint {
            device_type,
            min_version: None,
            max_version: None,
            required_features: Vec::new(),
            param_overrides: JsonMap::new(),
        }
    }

    /// Whether a device meets the constraint.
    pub fn is_satisfied(&self, device_type: &str, version: &str, features: &[String]) -> (r: bool)
        ensures
            r == constraint_holds(
                self.device_type@,
                opt_text(self.min_version),
                opt_text(self.max_version),
                texts(self.required_features@),
                device_type@,
                version@,
                texts(features@),
            ),
    {
        if !str_equal(self.device_type.as_str(), "*") && !str_equal(
            self.device_type.as_str(),
            device_type,
        ) {
            return false;
        }
        if let Some(min_ver) = &self.min_version {
            if str_lt(version, min_ver.as_str()) {
                return false;
            }
        }
        if let Some(max_ver) = &self.max_version {
            if str_lt(max_ver.as_str(), version) {
                return false;
            }
        }
        let mut i: usize = 0;
        while i < self.required_features.len()
            invariant
                i <= self.required_features@.len(),
                forall|j: int| 0 <= j < i ==> #[trigger] texts(features@).contains(texts(self.required_features@)[j]),
            decreases self.required_features.len() - i,
        {
            assert(texts(self.required_features@)[i as int] == self.required_features@[i as int]@);
            if !contains_text(features, self.required_features[i].as_str()) {
                return false;
            }
            i = i + 1;
        }
        true
    }
}

/// Whether any of `constraints` is met by the device.
pub open spec fn any_constraint_holds(
    constraints: Seq<DeviceConstraint>,
    device_type: Seq<char>,
    version: Seq<char>,
    features: Seq<Seq<char>>,
) -> bool {
    exists|i: int|
        0 <= i < constraints.len() && constraint_holds(
            (#[trigger] constraints[i]).device_type@,
            opt_text(constraints[i].min_version),
            opt_text(constraints[i].max_version),
            texts(constraints[i].required_features@),
            device_type,
            version,
            features,
        )
}

/// Whether some constraint of a skill is met by the device.
pub fn constraints_allow(
    constraints: &Vec<DeviceConstraint>,
    device_type: &str,
    version: &str,
    features: &[String],
) -> (r: bool)
    ensures
        r == any_constraint_holds(constraints@, device_type@, version@, texts(features@)),
{
    let mut i: usize = 0;
    while i < constraints.len()
        invariant
            i <= constraints@.len(),
            forall|j: int|
                0 <= j < i ==> !constraint_holds(
                    (#[trigger] constraints@[j]).device_type@,
                    opt_text(constraints@[j].min_version),
                    opt_text(constraints@[j].max_version),
                    texts(constraints@[j].required_features@),
                    device_type@,
                    version@,
                    texts(features@),
                ),
        decreases constraints.len() - i,
    {
        if constraints[i].is_satisfied(device_type, version, features) {
            return true;
        }
        i = i + 1;
    }
    false
}

/// A skill another skill needs.
#[derive(Debug, Clone)]
pub struct SkillDependency {
    /// The skill needed.
    pub skill_id: String,
    /// Its oldest acceptable version.
    pub min_version: String,
    /// Whether it is required.
    pub required: bool,
}

impl SkillDependency {
    /// A required dependency.
    pub fn new(skill_id: String, min_version: String) -> (r: Self)
        ensures
            r.skill_id == skill_id,
            r.min_version == min_version,
            r.required,
    {
        SkillDependency { skill_id, min_version, required: true }
    }
}


/// Reading back the text of a version gives the same version.
pub proof fn lemma_version_text_round_trip(v: SkillVersion)
    ensures
        version_parse_spec(version_text(v)) == Some(v),
{
    let a = decimal(v.major as nat);
    let b = decimal(v.minor as nat);
    let c = decimal(v.patch as nat);
    lemma_decimal_digits(v.major as nat);
    lemma_decimal_digits(v.minor as nat);
    lemma_decimal_digits(v.patch as nat);
    lemma_parse_decimal(v.major);
    lemma_parse_decimal(v.minor);
    lemma_parse_decimal(v.patch);
    assert forall|i: int| 0 <= i < a.len() implies a[i] != '.' by {
        assert('0' <= a[i] <= '9');
    }
    assert forall|i: int| 0 <= i < b.len() implies b[i] != '.' by {
        assert('0' <= b[i] <= '9');
    }
    assert forall|i: int| 0 <= i < c.len() implies c[i] != '.' by {
        assert('0' <= c[i] <= '9');
    }
    lemma_split_without_sep(a, '.');
    lemma_split_without_sep(b, '.');
    lemma_split_without_sep(c, '.');
    reveal_strlit(".");
    assert("."@ =~= seq!['.']);
    assert(version_text(v) =~= (a + seq!['.'] + b) + seq!['.'] + c);
    lemma_split_around_sep(a + seq!['.'] + b, c, '.');
    lemma_split_around_sep(a, b, '.');
    assert(split_seq(version_text(v), '.') =~= seq![a, b, c]);
}

/// The message for a string of `len` bytes outside `min..=max`.
pub open spec fn length_out_of_range_message(len: nat, min: nat, max: nat) -> Seq<char> {
    "字符串长度 "@ + decimal(len) + " 不在范围 ["@ + decimal(min) + ", "@ + decimal(max) + "] 内"@
}

/// The message for a string that is none of the allowed values.
pub open spec fn not_allowed_message(s: Seq<char>) -> Seq<char> {
    "值 '"@ + s + "' 不在允许的枚举值列表中"@
}

/// Whether a string of `len` bytes breaks the length rule: both bounds
/// are given and the length lies outside them.
pub open spec fn breaks_length(min_length: Option<usize>, max_length: Option<usize>, len: nat) -> bool {
    min_length matches Some(lo) && max_length matches Some(hi) && (len < lo || len > hi)
}

/// Whether `value` breaks the rule of allowed values: a list is given and
/// `value` is not in it.
pub open spec fn breaks_allowed(enum_values: Option<&Vec<String>>, value: Seq<char>) -> bool {
    enum_values matches Some(vs) && !vs@.map_values(|s: String| s@).contains(value)
}

/// Checks a string parameter against its rules: its length in bytes must
/// lie within `min_length..=max_length` where both are given, and it must be
/// one of `enum_values` where they are given. The length is checked first.
pub fn check_text_rules(
    min_length: Option<usize>,
    max_length: Option<usize>,
    enum_values: Option<&Vec<String>>,
    value: &str,
) -> (r: Result<()>)
    ensures
        breaks_length(min_length, max_length, value.len() as nat) ==> (r matches Err(
            SkillsError::ValidationFailed(m),
        ) && m@ == length_out_of_range_message(
            value.len() as nat,
            min_length->Some_0 as nat,
            max_length->Some_0 as nat,
        )),
        !breaks_length(min_length, max_length, value.len() as nat) && breaks_allowed(
            enum_values,
            value@,
        ) ==> (r matches Err(SkillsError::ValidationFailed(m)) && m@ == not_allowed_message(value@)),
        r is Ok <==> !breaks_length(min_length, max_length, value.len() as nat) && !breaks_allowed(
            enum_values,
            value@,
        ),
{
    let len = value.len();
    match (min_length, max_length) {
        (Some(lo), Some(hi)) => {
            if len < lo || len > hi {
                let mut m = string_of("字符串长度 ");
                m.append(decimal_string(len as u64).as_str());
                m.append(" 不在范围 [");
                m.append(decimal_string(lo as u64).as_str());
                m.append(", ");
                m.append(decimal_string(hi as u64).as_str());
                m.append("] 内");
                return Err(SkillsError::ValidationFailed(m));
            }
        },
        _ => {},
    }
    match enum_values {
        Some(vs) => {
            let ghost names = vs@.map_values(|s: String| s@);
            let mut i: usize = 0;
            while i < vs.len()
                invariant
                    i <= vs@.len(),
                    names == vs@.map_values(|s: String| s@),
                    enum_values == Some(vs),
                    !breaks_length(min_length, max_length, value.len() as nat),
                    forall|j: int| 0 <= j < i ==> names[j] != value@,
                decreases vs.len() - i,
            {
                if str_equal(vs[i].as_str(), value) {
                    assert(names[i as int] == value@);
                    assert(names.contains(value@));
                    return Ok(());
                }
                i = i + 1;
            }
            let mut m = string_of("值 '");
            m.append(value);
            m.append("' 不在允许的枚举值列表中");
            Err(SkillsError::ValidationFailed(m))
        },
        None => Ok(()),
    }
}

/// The message for a required parameter that was not given.
pub open spec fn missing_param_message(name: Seq<char>) -> Seq<char> {
    "缺少必需参数: "@ + name
}

/// Checks that parameter `name` is there when it must be: a required
/// parameter without a default value has to be given.
pub fn check_required_param(name: &str, required: bool, given: bool, has_default: bool) -> (r: Result<()>)
    ensures
        r is Err <==> required && !given && !has_default,
        r matches Err(e) ==> e matches SkillsError::ValidationFailed(m) && m@ == missing_param_message(
            name@,
        ),
{
    if required && !given && !has_default {
        let mut m = string_of("缺少必需参数: ");
        m.append(name);
        return Err(SkillsError::ValidationFailed(m));
    }
    Ok(())
}

/// Versions are ordered by their numbers, field by field: a smaller major
/// version comes first whatever the minor and patch numbers; with equal
/// majors a smaller minor comes first; with equal majors and minors the
/// patch numbers decide. So 1.2.0 comes before 1.10.0.
pub proof fn lemma_version_order_is_numeric(a: SkillVersion, b: SkillVersion)
    ensures
        a.major < b.major ==> version_le(a, b) && !version_le(b, a),
        a.major == b.major && a.minor < b.minor ==> version_le(a, b) && !version_le(b, a),
        a.major == b.major && a.minor == b.minor ==> (version_le(a, b) <==> a.patch <= b.patch),
        version_le(a, b) && version_le(b, a) <==> a == b,
{
}

} // verus!
