//! Cron expressions of six fields: second, minute, hour, day of month,
//! month, day of week.
//!
//! Each field is `*`, or a comma separated list of parts; a part is a value,
//! a range `a-b`, a stepped range `a-b/s`, or a step `*/s` or `a/s` (from `a`
//! up to the field's maximum). Every value written must lie within the
//! field's bounds.

use vstd::prelude::*;
use std::collections::HashSet;
use vstd::arithmetic::div_mod::{lemma_mod_multiples_vanish, lemma_small_mod};
use crate::text::{
    char_is_whitespace, concat2, contains_char, decimal, decimal_string, has_char,
    parse_u8_spec, parse_u8_str, split_seq, split_str, split_whitespace_str, split_ws,
    str_equal, string_of, lemma_split_nonempty,
};

verus! {

broadcast use vstd::std_specs::hash::group_hash_axioms;

/// The values `start`, `start + step`, ... up to `end`, as a stepped
/// inclusive range of `u8` yields them.
pub open spec fn stepped(start: int, end: int, step: int) -> Set<u8> {
    Set::new(|v: u8| start <= v <= end && (v - start) % step == 0)
}

/// A field with no value.
fn empty_field() -> (r: HashSet<u8>)
    ensures
        r@ == Set::<u8>::empty(),
{
    HashSet::new()
}

/// The least value of `field` not below `v`, if any.
fn first_from(field: &HashSet<u8>, v: u8) -> (r: Option<u8>)
    ensures
        r is None ==> forall|y: u8| #[trigger] field@.contains(y) ==> y < v,
        r matches Some(x) ==> field@.contains(x) && v <= x && forall|y: u8|
            #[trigger] field@.contains(y) && v <= y ==> x <= y,
{
    let mut x: u16 = v as u16;
    while x <= 255
        invariant
            v <= x <= 256,
            forall|y: u8| v <= y < x ==> !#[trigger] field@.contains(y),
        decreases 256 - x,
    {
        if field.contains(&(x as u8)) {
            return Some(x as u8);
        }
        x = x + 1;
    }
    None
}

/// The least value of a field, if any.
pub fn least_value(field: &HashSet<u8>) -> (r: Option<u8>)
    ensures
        r is None <==> field@ == Set::<u8>::empty(),
        r matches Some(x) ==> field@.contains(x) && forall|y: u8| #[trigger] field@.contains(y) ==> x <= y,
{
    let r = first_from(field, 0);
    if r.is_none() {
        assert(field@ =~= Set::<u8>::empty());
    }
    r
}

/// Adds `start`, `start + step`, ... up to `end` to `field`.
fn insert_stepped(field: &mut HashSet<u8>, start: u8, end: u8, step: u8)
    requires
        step > 0,
    ensures
        final(field)@ == old(field)@.union(stepped(start as int, end as int, step as int)),
{
    let ghost orig = field@;
    let mut i: u16 = start as u16;
    let ghost mut k: int = 0;
    while i <= end as u16
        invariant
            step > 0,
            i == start + k * step,
            k >= 0,
            i <= 510,
            field@ == orig.union(
                Set::new(|v: u8| start <= v <= end && v < i && (v - start) % (step as int) == 0),
            ),
        decreases 510 - i,
    {
        field.insert(i as u8);
        proof {
            let nxt = Set::new(|v: u8| start <= v <= end && v < i + step && (v - start) % (step as int) == 0);
            let prv = Set::new(|v: u8| start <= v <= end && v < i && (v - start) % (step as int) == 0);
            assert forall|v: u8| #[trigger] nxt.contains(v) implies prv.insert(i as u8).contains(v) by {
                if v >= i {
                    let d = v - i;
                    lemma_mod_multiples_vanish(k, d, step as int);
                    lemma_small_mod(d as nat, step as nat);
                    assert((v - start) == step * k + d) by (nonlinear_arith)
                        requires
                            i == start + k * step,
                            d == v - i,
                    ;
                }
            }
            assert forall|v: u8| #[trigger] prv.insert(i as u8).contains(v) implies nxt.contains(v) by {
                if v == i {
                    lemma_mod_multiples_vanish(k, 0, step as int);
                    assert((v - start) == step * k) by (nonlinear_arith)
                        requires
                            i == start + k * step,
                            v == i,
                    ;
                }
            }
            assert(nxt =~= prv.insert(i as u8));
            assert(field@ =~= orig.union(nxt));
        }
        i = i + step as u16;
        proof {
            k = k + 1;
            assert(i == start + k * step) by (nonlinear_arith)
                requires
                    i == start + (k - 1) * step + step,
            ;
        }
    }
    assert(Set::new(|v: u8| start <= v <= end && v < i && (v - start) % (step as int) == 0) =~= stepped(
        start as int,
        end as int,
        step as int,
    ));
}

/// Adds every value of `other` to `field`.
fn insert_all(field: &mut HashSet<u8>, other: &HashSet<u8>)
    ensures
        final(field)@ == old(field)@.union(other@),
{
    let ghost orig = field@;
    let mut x: u16 = 0;
    while x <= 255
        invariant
            x <= 256,
            field@ == orig.union(Set::new(|v: u8| v < x && other@.contains(v))),
        decreases 256 - x,
    {
        if other.contains(&(x as u8)) {
            field.insert(x as u8);
        }
        proof {
            assert(field@ =~= orig.union(Set::new(|v: u8| v < x + 1 && other@.contains(v))));
        }
        x = x + 1;
    }
    assert(Set::new(|v: u8| v < x && other@.contains(v)) =~= other@);
}

} // verus!

verus! {

/// What parsing one field, or one part of it, gives: a set of values, an
/// error message, or a step of zero (on which the parser panics).
pub enum FieldParse {
    /// The values.
    Values(Set<u8>),
    /// The input is invalid; the message says why.
    Invalid(Seq<char>),
    /// A step of zero was given.
    ZeroStep,
}

/// The message for a value outside the field's bounds.
pub open spec fn out_of_range_message(v: u8, min: u8, max: u8) -> Seq<char> {
    "Value "@ + decimal(v as nat) + " out of range ["@ + decimal(min as nat) + ", "@ + decimal(
        max as nat,
    ) + "]"@
}

/// What one comma separated part of a field gives.
pub open spec fn part_outcome(part: Seq<char>, min: u8, max: u8) -> FieldParse {
    if has_char(part, '-') {
        let rp = split_seq(part, '-');
        if rp.len() != 2 {
            FieldParse::Invalid("Invalid range: "@ + part)
        } else {
            match parse_u8_spec(rp[0]) {
                None => FieldParse::Invalid("Invalid range start: "@ + rp[0]),
                Some(start) => {
                    let eas = split_seq(rp[1], '/');
                    match parse_u8_spec(eas[0]) {
                        None => FieldParse::Invalid("Invalid range end: "@ + eas[0]),
                        Some(end) => if eas.len() > 1 {
                            match parse_u8_spec(eas[1]) {
                                None => FieldParse::Invalid("Invalid step: "@ + eas[1]),
                                Some(step) => if start < min || start > max {
                                    FieldParse::Invalid(out_of_range_message(start, min, max))
                                } else if end < min || end > max {
                                    FieldParse::Invalid(out_of_range_message(end, min, max))
                                } else if step == 0 {
                                    FieldParse::ZeroStep
                                } else {
                                    FieldParse::Values(
                                        stepped(start as int, end as int, step as int),
                                    )
                                },
                            }
                        } else if start < min || start > max {
                            FieldParse::Invalid(out_of_range_message(start, min, max))
                        } else if end < min || end > max {
                            FieldParse::Invalid(out_of_range_message(end, min, max))
                        } else {
                            FieldParse::Values(stepped(start as int, end as int, 1))
                        },
                    }
                },
            }
        }
    } else if has_char(part, '/') {
        let sp = split_seq(part, '/');
        if sp.len() != 2 {
            FieldParse::Invalid("Invalid step: "@ + part)
        } else {
            match parse_u8_spec(sp[1]) {
                None => FieldParse::Invalid("Invalid step: "@ + sp[1]),
                Some(step) => if sp[0] == "*"@ {
                    if step == 0 {
                        FieldParse::ZeroStep
                    } else {
                        FieldParse::Values(stepped(min as int, max as int, step as int))
                    }
                } else {
                    match parse_u8_spec(sp[0]) {
                        None => FieldParse::Invalid("Invalid value: "@ + sp[0]),
                        Some(v) => if v < min || v > max {
                            FieldParse::Invalid(out_of_range_message(v, min, max))
                        } else if step == 0 {
                            FieldParse::ZeroStep
                        } else {
                            FieldParse::Values(stepped(v as int, max as int, step as int))
                        },
                    }
                },
            }
        }
    } else {
        match parse_u8_spec(part) {
            None => FieldParse::Invalid("Invalid value: "@ + part),
            Some(v) => if v < min || v > max {
                FieldParse::Invalid(out_of_range_message(v, min, max))
            } else {
                FieldParse::Values(set![v])
            },
        }
    }
}

/// What a list of parts gives, read from the left: the union of their
/// values, or the outcome of the first part that fails.
pub open spec fn parts_outcome(parts: Seq<Seq<char>>, min: u8, max: u8) -> FieldParse
    decreases parts.len(),
{
    if parts.len() == 0 {
        FieldParse::Values(Set::empty())
    } else {
        match parts_outcome(parts.drop_last(), min, max) {
            FieldParse::Values(s) => match part_outcome(parts.last(), min, max) {
                FieldParse::Values(t) => FieldParse::Values(s.union(t)),
                other => other,
            },
            other => other,
        }
    }
}

/// What a whole field gives: `*` is every value within the bounds;
/// otherwise the union of its parts, which must not be empty.
pub open spec fn field_outcome(field: Seq<char>, min: u8, max: u8) -> FieldParse {
    if field == "*"@ {
        FieldParse::Values(stepped(min as int, max as int, 1))
    } else {
        match parts_outcome(split_seq(field, ','), min, max) {
            FieldParse::Values(s) => if s.is_empty() {
                FieldParse::Invalid("No valid values found"@)
            } else {
                FieldParse::Values(s)
            },
            other => other,
        }
    }
}

/// Once a prefix of the parts fails, the whole list fails the same way.
proof fn lemma_parts_failure_sticks(parts: Seq<Seq<char>>, k: int, min: u8, max: u8)
    requires
        0 <= k <= parts.len(),
        !(parts_outcome(parts.subrange(0, k), min, max) is Values),
    ensures
        parts_outcome(parts, min, max) == parts_outcome(parts.subrange(0, k), min, max),
    decreases parts.len() - k,
{
    if k == parts.len() {
        assert(parts.subrange(0, k) =~= parts);
    } else {
        let p1 = parts.subrange(0, k + 1);
        assert(p1.drop_last() =~= parts.subrange(0, k));
        lemma_parts_failure_sticks(parts, k + 1, min, max);
    }
}

/// Appends `b` to `s`.
fn append_str(s: &mut String, b: &str)
    ensures
        final(s)@ == old(s)@ + b@,
{
    s.append(b);
}

/// The message for a value outside the field's bounds.
fn out_of_range(v: u8, min: u8, max: u8) -> (r: String)
    ensures
        r@ == out_of_range_message(v, min, max),
{
    let mut m = string_of("Value ");
    let d = decimal_string(v as u64);
    append_str(&mut m, d.as_str());
    append_str(&mut m, " out of range [");
    let d = decimal_string(min as u64);
    append_str(&mut m, d.as_str());
    append_str(&mut m, ", ");
    let d = decimal_string(max as u64);
    append_str(&mut m, d.as_str());
    append_str(&mut m, "]");
    m
}

/// The values of a stepped range.
fn stepped_field(start: u8, end: u8, step: u8) -> (r: HashSet<u8>)
    requires
        step > 0,
    ensures
        r@ == stepped(start as int, end as int, step as int),
{
    let mut f = empty_field();
    insert_stepped(&mut f, start, end, step);
    assert(f@ =~= stepped(start as int, end as int, step as int));
    f
}

/// Why a field or an expression did not parse.
#[derive(Debug)]
pub enum CronError {
    /// The input is invalid; the message says why.
    Invalid(String),
    /// A step of zero was given.
    ZeroStep,
}

/// Whether a parse result agrees with the outcome of a field.
pub open spec fn field_result(o: FieldParse, r: Result<HashSet<u8>, CronError>) -> bool {
    match o {
        FieldParse::Values(s) => r matches Ok(f) && f@ == s,
        FieldParse::Invalid(m) => r matches Err(CronError::Invalid(e)) && e@ == m,
        FieldParse::ZeroStep => r matches Err(CronError::ZeroStep),
    }
}

/// A stepped range, or `ZeroStep` for a step of zero.
fn stepped_checked(start: u8, end: u8, step: u8) -> (r: Result<HashSet<u8>, CronError>)
    ensures
        step == 0 ==> r matches Err(CronError::ZeroStep),
        step > 0 ==> (r matches Ok(f) && f@ == stepped(start as int, end as int, step as int)),
{
    if step == 0 {
        Err(CronError::ZeroStep)
    } else {
        Ok(stepped_field(start, end, step))
    }
}

/// An error with `a` followed by `b` as its message.
fn invalid(a: &str, b: &str) -> (r: CronError)
    ensures
        r matches CronError::Invalid(e) && e@ == a@ + b@,
{
    CronError::Invalid(concat2(a, b))
}

/// Parses one comma separated part of a field.
fn parse_part(part: &str, min: u8, max: u8) -> (r: Result<HashSet<u8>, CronError>)
    ensures
        field_result(part_outcome(part@, min, max), r),
{
    if contains_char(part, '-') {
        let rp = split_str(part, '-');
        if rp.len() != 2 {
            return Err(invalid("Invalid range: ", part));
        }
        let start = match parse_u8_str(rp[0].as_str()) {
            Some(v) => v,
            None => {
                return Err(invalid("Invalid range start: ", rp[0].as_str()));
            },
        };
        let eas = split_str(rp[1].as_str(), '/');
        proof {
            lemma_split_nonempty(rp[1]@, '/');
        }
        let end = match parse_u8_str(eas[0].as_str()) {
            Some(v) => v,
            None => {
                return Err(invalid("Invalid range end: ", eas[0].as_str()));
            },
        };
        if eas.len() > 1 {
            let step = match parse_u8_str(eas[1].as_str()) {
                Some(v) => v,
                None => {
                    return Err(invalid("Invalid step: ", eas[1].as_str()));
                },
            };
            if start < min || start > max {
                return Err(CronError::Invalid(out_of_range(start, min, max)));
            }
            if end < min || end > max {
                return Err(CronError::Invalid(out_of_range(end, min, max)));
            }
            stepped_checked(start, end, step)
        } else {
            if start < min || start > max {
                return Err(CronError::Invalid(out_of_range(start, min, max)));
            }
            if end < min || end > max {
                return Err(CronError::Invalid(out_of_range(end, min, max)));
            }
            Ok(stepped_field(start, end, 1))
        }
    } else if contains_char(part, '/') {
        let sp = split_str(part, '/');
        if sp.len() != 2 {
            return Err(invalid("Invalid step: ", part));
        }
        let step = match parse_u8_str(sp[1].as_str()) {
            Some(v) => v,
            None => {
                return Err(invalid("Invalid step: ", sp[1].as_str()));
            },
        };
        if str_equal(sp[0].as_str(), "*") {
            proof {
                reveal_strlit("*");
            }
            stepped_checked(min, max, step)
        } else {
            proof {
                reveal_strlit("*");
            }
            let value = match parse_u8_str(sp[0].as_str()) {
                Some(v) => v,
                None => {
                    return Err(invalid("Invalid value: ", sp[0].as_str()));
                },
            };
            if value < min || value > max {
                return Err(CronError::Invalid(out_of_range(value, min, max)));
            }
            stepped_checked(value, max, step)
        }
    } else {
        let value = match parse_u8_str(part) {
            Some(v) => v,
            None => {
                return Err(invalid("Invalid value: ", part));
            },
        };
        if value < min || value > max {
            return Err(CronError::Invalid(out_of_range(value, min, max)));
        }
        let mut f = empty_field();
        f.insert(value);
        assert(f@ =~= set![value]);
        Ok(f)
    }
}

/// Parses one field with the given bounds.
fn parse_field(field: &str, min: u8, max: u8) -> (r: Result<HashSet<u8>, CronError>)
    ensures
        field_result(field_outcome(field@, min, max), r),
{
    if str_equal(field, "*") {
        return Ok(stepped_field(min, max, 1));
    }
    let parts = split_str(field, ',');
    let ghost ps = split_seq(field@, ',');
    let mut acc = empty_field();
    let mut k: usize = 0;
    while k < parts.len()
        invariant
            parts.len() == ps.len(),
            forall|j: int| 0 <= j < parts.len() ==> (#[trigger] parts@[j])@ == ps[j],
            ps == split_seq(field@, ','),
            field@ != "*"@,
            k <= parts.len(),
            parts_outcome(ps.subrange(0, k as int), min, max) == FieldParse::Values(acc@),
        decreases parts.len() - k,
    {
        let ghost pre = ps.subrange(0, k as int);
        let ghost cur = ps.subrange(0, k + 1);
        assert(cur.drop_last() =~= pre);
        assert(cur.last() == ps[k as int]);
        let piece = parse_part(parts[k].as_str(), min, max);
        match piece {
            Ok(f) => {
                insert_all(&mut acc, &f);
            },
            Err(e) => {
                proof {
                    lemma_parts_failure_sticks(ps, k + 1, min, max);
                }
                return Err(e);
            },
        }
        k = k + 1;
    }
    assert(ps.subrange(0, k as int) =~= ps);
    if acc.is_empty() {
        return Err(CronError::Invalid(string_of("No valid values found")));
    }
    Ok(acc)
}

} // verus!

verus! {

/// What parsing a whole expression gives: the six sets of values, an error
/// message, or a step of zero (on which the parser panics).
pub enum CronParse {
    /// Seconds, minutes, hours, days, months, days of week.
    Parsed(Seq<Set<u8>>),
    /// The input is invalid; the message says why.
    Invalid(Seq<char>),
    /// A step of zero was given.
    ZeroStep,
}

/// The least value of field `i` of an expression: second, minute, hour,
/// day, month, day of week.
pub open spec fn field_min(i: int) -> u8 {
    if i == 3 || i == 4 {
        1
    } else {
        0
    }
}

/// The greatest value of field `i` of an expression.
pub open spec fn field_max(i: int) -> u8 {
    if i == 0 || i == 1 {
        59
    } else if i == 2 {
        23
    } else if i == 3 {
        31
    } else if i == 4 {
        12
    } else {
        6
    }
}

/// What the fields from `i` on give, the sets of the earlier ones being
/// `acc`: read from the left, the first field that fails decides.
pub open spec fn fields_from(t: Seq<Seq<char>>, i: int, acc: Seq<Set<u8>>) -> CronParse
    decreases 6 - i,
{
    if i >= 6 {
        CronParse::Parsed(acc)
    } else {
        match field_outcome(t[i], field_min(i), field_max(i)) {
            FieldParse::Values(v) => fields_from(t, i + 1, acc.push(v)),
            FieldParse::Invalid(m) => CronParse::Invalid(m),
            FieldParse::ZeroStep => CronParse::ZeroStep,
        }
    }
}

/// What six fields give, with the bounds of second (0-59), minute (0-59),
/// hour (0-23), day (1-31), month (1-12) and day of week (0-6).
pub open spec fn six_fields_outcome(t: Seq<Seq<char>>) -> CronParse {
    fields_from(t, 0, Seq::empty())
}

/// What parsing the text `s` gives: it must hold exactly six fields
/// separated by white space.
pub open spec fn cron_outcome(s: Seq<char>) -> CronParse {
    let t = split_ws(s);
    if t.len() != 6 {
        CronParse::Invalid(
            "Invalid cron expression: expected 6 parts, got "@ + decimal(t.len()),
        )
    } else {
        six_fields_outcome(t)
    }
}

/// Orders the times of day `h:m:s`: by hour, then minute, then second.
pub open spec fn time_key(s: u8, m: u8, h: u8) -> int {
    h as int * 65536 + m as int * 256 + s as int
}

/// `time_key` orders times as hour, minute and second read in turn.
pub proof fn lemma_time_key_order(s: u8, m: u8, h: u8, s2: u8, m2: u8, h2: u8)
    ensures
        time_key(s, m, h) <= time_key(s2, m2, h2) <==> (h < h2 || (h == h2 && (m < m2 || (m == m2
            && s <= s2)))),
{
}

/// Whether every value of `v` lies within `min..=max`.
pub open spec fn within(v: Set<u8>, min: u8, max: u8) -> bool {
    forall|x: u8| #[trigger] v.contains(x) ==> min <= x <= max
}

/// Whether the sets `v` are six, none of them empty, each within the
/// bounds of its field.
pub open spec fn fields_valid(v: Seq<Set<u8>>) -> bool {
    &&& v.len() == 6
    &&& forall|i: int| 0 <= i < 6 ==> #[trigger] v[i] != Set::<u8>::empty() && within(v[i], field_min(i), field_max(i))
}

proof fn lemma_part_within(part: Seq<char>, min: u8, max: u8)
    ensures
        part_outcome(part, min, max) matches FieldParse::Values(t) ==> within(t, min, max),
{
}

proof fn lemma_parts_within(parts: Seq<Seq<char>>, min: u8, max: u8)
    ensures
        parts_outcome(parts, min, max) matches FieldParse::Values(t) ==> within(t, min, max),
    decreases parts.len(),
{
    if parts.len() > 0 {
        lemma_parts_within(parts.drop_last(), min, max);
        lemma_part_within(parts.last(), min, max);
    }
}

proof fn lemma_field_valid(field: Seq<char>, min: u8, max: u8)
    requires
        min <= max,
    ensures
        field_outcome(field, min, max) matches FieldParse::Values(t) ==> t != Set::<u8>::empty()
            && within(t, min, max),
{
    lemma_parts_within(split_seq(field, ','), min, max);
    if field == "*"@ {
        assert(stepped(min as int, max as int, 1).contains(min));
    }
}

proof fn lemma_fields_from_valid(t: Seq<Seq<char>>, i: int, acc: Seq<Set<u8>>)
    requires
        0 <= i <= 6,
        acc.len() == i,
        forall|j: int| 0 <= j < i ==> #[trigger] acc[j] != Set::<u8>::empty() && within(acc[j], field_min(j), field_max(j)),
    ensures
        fields_from(t, i, acc) matches CronParse::Parsed(v) ==> fields_valid(v),
    decreases 6 - i,
{
    if i < 6 {
        lemma_field_valid(t[i], field_min(i), field_max(i));
        if let FieldParse::Values(v) = field_outcome(t[i], field_min(i), field_max(i)) {
            lemma_fields_from_valid(t, i + 1, acc.push(v));
        }
    }
}

/// Whatever text parses gives six fields, none of them empty, each within
/// the bounds of its field.
pub proof fn lemma_parsed_fields_valid(s: Seq<char>)
    ensures
        cron_outcome(s) matches CronParse::Parsed(v) ==> fields_valid(v),
{
    lemma_fields_from_valid(split_ws(s), 0, Seq::empty());
}

/// A cron expression: the set of values of each of its six fields.
#[derive(Debug, PartialEq, Eq)]
pub struct CronExpression {
    /// Seconds (0-59).
    pub seconds: HashSet<u8>,
    /// Minutes (0-59).
    pub minutes: HashSet<u8>,
    /// Hours (0-23).
    pub hours: HashSet<u8>,
    /// Days of the month (1-31).
    pub days: HashSet<u8>,
    /// Months (1-12).
    pub months: HashSet<u8>,
    /// Days of the week (0-6, 0 is Sunday).
    pub days_of_week: HashSet<u8>,
}

/// A field with the values of `field`.
fn copy_field(field: &HashSet<u8>) -> (r: HashSet<u8>)
    ensures
        r@ == field@,
{
    let mut r = empty_field();
    insert_all(&mut r, field);
    assert(r@ =~= field@);
    r
}

impl Clone for CronExpression {
    fn clone(&self) -> (r: Self)
        ensures
            r.seconds@ == self.seconds@,
            r.minutes@ == self.minutes@,
            r.hours@ == self.hours@,
            r.days@ == self.days@,
            r.months@ == self.months@,
            r.days_of_week@ == self.days_of_week@,
    {
        CronExpression {
            seconds: copy_field(&self.seconds),
            minutes: copy_field(&self.minutes),
            hours: copy_field(&self.hours),
            days: copy_field(&self.days),
            months: copy_field(&self.months),
            days_of_week: copy_field(&self.days_of_week),
        }
    }
}

impl Default for CronExpression {
    /// Midnight on the first of every month, on Mondays.
    fn default() -> (r: Self)
        ensures
            r.seconds@ == set![0u8],
            r.minutes@ == set![0u8],
            r.hours@ == set![0u8],
            r.days@ == set![1u8],
            r.months@ == stepped(1, 12, 1),
            r.days_of_week@ == set![1u8],
    {
        let mut seconds = empty_field();
        seconds.insert(0);
        let mut minutes = empty_field();
        minutes.insert(0);
        let mut hours = empty_field();
        hours.insert(0);
        let mut days = empty_field();
        days.insert(1);
        let months = stepped_field(1, 12, 1);
        let mut days_of_week = empty_field();
        days_of_week.insert(1);
        assert(seconds@ =~= set![0u8]);
        assert(minutes@ =~= set![0u8]);
        assert(hours@ =~= set![0u8]);
        assert(days@ =~= set![1u8]);
        assert(days_of_week@ =~= set![1u8]);
        CronExpression { seconds, minutes, hours, days, months, days_of_week }
    }
}

impl CronExpression {
    /// Whether every field holds a value: what `validate` accepts.
    pub open spec fn no_field_empty(&self) -> bool {
        &&& self.seconds@ != Set::<u8>::empty()
        &&& self.minutes@ != Set::<u8>::empty()
        &&& self.hours@ != Set::<u8>::empty()
        &&& self.days@ != Set::<u8>::empty()
        &&& self.months@ != Set::<u8>::empty()
        &&& self.days_of_week@ != Set::<u8>::empty()
    }

    /// Whether every value of every field lies within that field's bounds.
    pub open spec fn in_bounds(&self) -> bool {
        &&& within(self.seconds@, 0, 59)
        &&& within(self.minutes@, 0, 59)
        &&& within(self.hours@, 0, 23)
        &&& within(self.days@, 1, 31)
        &&& within(self.months@, 1, 12)
        &&& within(self.days_of_week@, 0, 6)
    }

    /// Parses an expression of six white-space separated fields, reporting
    /// a step of zero as `CronError::ZeroStep`.
    pub fn parse_checked(cron_str: &str) -> (r: Result<Self, CronError>)
        ensures
            match cron_outcome(cron_str@) {
                CronParse::Parsed(v) => r matches Ok(c) && c.seconds@ == v[0] && c.minutes@
                    == v[1] && c.hours@ == v[2] && c.days@ == v[3] && c.months@ == v[4]
                    && c.days_of_week@ == v[5],
                CronParse::Invalid(m) => r matches Err(CronError::Invalid(e)) && e@ == m,
                CronParse::ZeroStep => r matches Err(CronError::ZeroStep),
            },
            r matches Ok(c) ==> c.no_field_empty() && c.in_bounds(),
    {
        proof {
            lemma_parsed_fields_valid(cron_str@);
        }
        let parts = split_whitespace_str(cron_str);
        if parts.len() != 6 {
            let mut m = string_of("Invalid cron expression: expected 6 parts, got ");
            let d = decimal_string(parts.len() as u64);
            append_str(&mut m, d.as_str());
            return Err(CronError::Invalid(m));
        }
        let ghost t = split_ws(cron_str@);
        let mut fields: Vec<HashSet<u8>> = Vec::new();
        let mut i: usize = 0;
        assert(Seq::new(0, |j: int| fields@[j]@) =~= Seq::<Set<u8>>::empty());
        while i < 6
            invariant
                parts.len() == 6,
                t == split_ws(cron_str@),
                t.len() == 6,
                forall|j: int| 0 <= j < 6 ==> (#[trigger] parts@[j])@ == t[j],
                i <= 6,
                fields.len() == i,
                six_fields_outcome(t) == fields_from(
                    t,
                    i as int,
                    Seq::new(i as nat, |j: int| fields@[j]@),
                ),
            decreases 6 - i,
        {
            let lo: u8 = if i == 3 || i == 4 {
                1
            } else {
                0
            };
            let hi: u8 = if i == 0 || i == 1 {
                59
            } else if i == 2 {
                23
            } else if i == 3 {
                31
            } else if i == 4 {
                12
            } else {
                6
            };
            assert(lo == field_min(i as int) && hi == field_max(i as int));
            let f = match parse_field(parts[i].as_str(), lo, hi) {
                Ok(f) => f,
                Err(e) => {
                    assert(six_fields_outcome(t) == fields_from(
                        t,
                        i as int,
                        Seq::new(i as nat, |j: int| fields@[j]@),
                    ));
                    return Err(e);
                },
            };
            let ghost before = Seq::new(i as nat, |j: int| fields@[j]@);
            fields.push(f);
            assert(Seq::new((i + 1) as nat, |j: int| fields@[j]@) =~= before.push(f@));
            i = i + 1;
        }
        let ghost v = Seq::new(6, |j: int| fields@[j]@);
        assert(six_fields_outcome(t) == CronParse::Parsed(v));
        assert(fields_valid(v));
        assert(v[0] != Set::<u8>::empty() && within(v[0], field_min(0), field_max(0)));
        assert(v[1] != Set::<u8>::empty() && within(v[1], field_min(1), field_max(1)));
        assert(v[2] != Set::<u8>::empty() && within(v[2], field_min(2), field_max(2)));
        assert(v[3] != Set::<u8>::empty() && within(v[3], field_min(3), field_max(3)));
        assert(v[4] != Set::<u8>::empty() && within(v[4], field_min(4), field_max(4)));
        assert(v[5] != Set::<u8>::empty() && within(v[5], field_min(5), field_max(5)));
        let days_of_week = fields.pop().unwrap();
        let months = fields.pop().unwrap();
        let days = fields.pop().unwrap();
        let hours = fields.pop().unwrap();
        let minutes = fields.pop().unwrap();
        let seconds = fields.pop().unwrap();
        Ok(CronExpression { seconds, minutes, hours, days, months, days_of_week })
    }

    /// Parses an expression of six white-space separated fields. A step of
    /// zero is outside what this accepts.
    pub fn parse(cron_str: &str) -> (r: Result<Self, String>)
        requires
            !(cron_outcome(cron_str@) is ZeroStep),
        ensures
            match cron_outcome(cron_str@) {
                CronParse::Parsed(v) => r matches Ok(c) && c.seconds@ == v[0] && c.minutes@
                    == v[1] && c.hours@ == v[2] && c.days@ == v[3] && c.months@ == v[4]
                    && c.days_of_week@ == v[5],
                CronParse::Invalid(m) => r matches Err(e) && e@ == m,
                CronParse::ZeroStep => false,
            },
            r matches Ok(c) ==> c.no_field_empty() && c.in_bounds(),
    {
        match Self::parse_checked(cron_str) {
            Ok(c) => Ok(c),
            Err(CronError::Invalid(m)) => Err(m),
            Err(CronError::ZeroStep) => Err(String::new()),
        }
    }

    /// Whether the given time matches every field.
    pub fn matches(
        &self,
        second: u8,
        minute: u8,
        hour: u8,
        day: u8,
        month: u8,
        day_of_week: u8,
    ) -> (r: bool)
        ensures
            r == (self.seconds@.contains(second) && self.minutes@.contains(minute)
                && self.hours@.contains(hour) && self.days@.contains(day) && self.months@.contains(
                month,
            ) && self.days_of_week@.contains(day_of_week)),
    {
        self.seconds.contains(&second) && self.minutes.contains(&minute) && self.hours.contains(
            &hour,
        ) && self.days.contains(&day) && self.months.contains(&month)
            && self.days_of_week.contains(&day_of_week)
    }

    /// Whether the expression names the time of day `h:m:s` (its date
    /// fields aside).
    pub open spec fn fires_at(&self, s: u8, m: u8, h: u8) -> bool {
        self.seconds@.contains(s) && self.minutes@.contains(m) && self.hours@.contains(h)
    }

    /// Whether the expression names a time of day not before `h:m:s`.
    pub open spec fn fires_from(&self, s: u8, m: u8, h: u8) -> bool {
        exists|s2: u8, m2: u8, h2: u8|
            #[trigger] self.fires_at(s2, m2, h2) && time_key(s2, m2, h2) >= time_key(s, m, h)
    }

    /// Whether `h:m:s` is the earliest time of day that the expression
    /// names and that is not before `ch:cm:cs`.
    pub open spec fn is_next_time(&self, cs: u8, cm: u8, ch: u8, s: u8, m: u8, h: u8) -> bool {
        &&& self.fires_at(s, m, h)
        &&& time_key(s, m, h) >= time_key(cs, cm, ch)
        &&& forall|s2: u8, m2: u8, h2: u8|
            #[trigger] self.fires_at(s2, m2, h2) && time_key(s2, m2, h2) >= time_key(cs, cm, ch)
                ==> time_key(s, m, h) <= time_key(s2, m2, h2)
    }

    /// Whether the second, minute and hour fields each hold a value.
    pub open spec fn names_times(&self) -> bool {
        self.seconds@ != Set::<u8>::empty() && self.minutes@ != Set::<u8>::empty() && self.hours@
            != Set::<u8>::empty()
    }

    /// Whether `h:m:s` is the earliest time of day the expression names:
    /// the least second, minute and hour.
    pub open spec fn is_first_time(&self, s: u8, m: u8, h: u8) -> bool {
        &&& self.fires_at(s, m, h)
        &&& forall|y: u8| #[trigger] self.seconds@.contains(y) ==> s <= y
        &&& forall|y: u8| #[trigger] self.minutes@.contains(y) ==> m <= y
        &&& forall|y: u8| #[trigger] self.hours@.contains(y) ==> h <= y
    }

    /// The next run time as (second, minute, hour): the earliest time named
    /// by the second, minute and hour fields that is not before the current
    /// one; when none is left today, the earliest time of all, which comes
    /// next on the following day. `None` only when one of these fields is
    /// empty.
    pub fn next_run(
        &self,
        current_second: u8,
        current_minute: u8,
        current_hour: u8,
    ) -> (r: Option<(u8, u8, u8)>)
        ensures
            r is None <==> !self.names_times(),
            self.fires_from(current_second, current_minute, current_hour) ==> (r matches Some(
                (s, m, h),
            ) && self.is_next_time(current_second, current_minute, current_hour, s, m, h)),
            !self.fires_from(current_second, current_minute, current_hour) ==> (r matches Some(
                (s, m, h),
            ) ==> self.is_first_time(s, m, h)),
    {
        let cs = current_second;
        let cm = current_minute;
        let ch = current_hour;
        let s0 = match least_value(&self.seconds) {
            Some(x) => x,
            None => {
                assert forall|s2: u8, m2: u8, h2: u8| !#[trigger] self.fires_at(s2, m2, h2) by {
                    assert(!self.seconds@.contains(s2));
                }
                return None;
            },
        };
        let m0 = match least_value(&self.minutes) {
            Some(x) => x,
            None => {
                assert forall|s2: u8, m2: u8, h2: u8| !#[trigger] self.fires_at(s2, m2, h2) by {
                    assert(!self.minutes@.contains(m2));
                }
                return None;
            },
        };
        let in_hour = self.hours.contains(&ch);
        let in_minute = self.minutes.contains(&cm);
        let same_minute = if in_hour && in_minute {
            first_from(&self.seconds, cs)
        } else {
            None
        };
        let later_minute = if in_hour && cm < 255 {
            first_from(&self.minutes, cm + 1)
        } else {
            None
        };
        let later_hour = if ch < 255 {
            first_from(&self.hours, ch + 1)
        } else {
            None
        };
        proof {
            assert forall|s2: u8, m2: u8, h2: u8| #[trigger]
                self.fires_at(s2, m2, h2) && time_key(s2, m2, h2) >= time_key(cs, cm, ch) implies {
                ||| (h2 == ch && m2 == cm && cs <= s2 && same_minute is Some)
                ||| (h2 == ch && cm < m2 && later_minute is Some)
                ||| (ch < h2 && later_hour is Some)
            } by {
                lemma_time_key_order(cs, cm, ch, s2, m2, h2);
            }
        }
        match same_minute {
            Some(s) => {
                proof {
                    assert forall|s2: u8, m2: u8, h2: u8| #[trigger]
                        self.fires_at(s2, m2, h2) && time_key(s2, m2, h2) >= time_key(cs, cm, ch)
                        implies time_key(s, cm, ch) <= time_key(s2, m2, h2) by {
                        lemma_time_key_order(cs, cm, ch, s2, m2, h2);
                        lemma_time_key_order(s, cm, ch, s2, m2, h2);
                    }
                }
                assert(self.fires_at(s, cm, ch));
                return Some((s, cm, ch));
            },
            None => {},
        }
        match later_minute {
            Some(m) => {
                proof {
                    assert(time_key(s0, m, ch) >= time_key(cs, cm, ch));
                    assert forall|s2: u8, m2: u8, h2: u8| #[trigger]
                        self.fires_at(s2, m2, h2) && time_key(s2, m2, h2) >= time_key(cs, cm, ch)
                        implies time_key(s0, m, ch) <= time_key(s2, m2, h2) by {
                        lemma_time_key_order(cs, cm, ch, s2, m2, h2);
                        lemma_time_key_order(s0, m, ch, s2, m2, h2);
                    }
                }
                assert(self.fires_at(s0, m, ch));
                return Some((s0, m, ch));
            },
            None => {},
        }
        match later_hour {
            Some(h) => {
                proof {
                    assert(time_key(s0, m0, h) >= time_key(cs, cm, ch));
                    assert forall|s2: u8, m2: u8, h2: u8| #[trigger]
                        self.fires_at(s2, m2, h2) && time_key(s2, m2, h2) >= time_key(cs, cm, ch)
                        implies time_key(s0, m0, h) <= time_key(s2, m2, h2) by {
                        lemma_time_key_order(cs, cm, ch, s2, m2, h2);
                        lemma_time_key_order(s0, m0, h, s2, m2, h2);
                    }
                }
                assert(self.fires_at(s0, m0, h));
                Some((s0, m0, h))
            },
            None => {
                match least_value(&self.hours) {
                    Some(h0) => {
                        assert(self.fires_at(s0, m0, h0));
                        Some((s0, m0, h0))
                    },
                    None => None,
                }
            },
        }
    }

    /// Checks that no field is empty; the first empty one, in field order,
    /// is reported.
    pub fn validate(&self) -> (r: Result<(), String>)
        ensures
            r is Ok <==> self.no_field_empty(),
            self.seconds@ == Set::<u8>::empty() ==> (r matches Err(e) && e@
                == "Seconds field is empty"@),
            self.seconds@ != Set::<u8>::empty() && self.minutes@ == Set::<u8>::empty() ==> (
            r matches Err(e) && e@ == "Minutes field is empty"@),
            self.seconds@ != Set::<u8>::empty() && self.minutes@ != Set::<u8>::empty()
                && self.hours@ == Set::<u8>::empty() ==> (r matches Err(e) && e@
                == "Hours field is empty"@),
            self.seconds@ != Set::<u8>::empty() && self.minutes@ != Set::<u8>::empty()
                && self.hours@ != Set::<u8>::empty() && self.days@ == Set::<u8>::empty() ==> (
            r matches Err(e) && e@ == "Days field is empty"@),
            self.seconds@ != Set::<u8>::empty() && self.minutes@ != Set::<u8>::empty()
                && self.hours@ != Set::<u8>::empty() && self.days@ != Set::<u8>::empty()
                && self.months@ == Set::<u8>::empty() ==> (r matches Err(e) && e@
                == "Months field is empty"@),
            self.seconds@ != Set::<u8>::empty() && self.minutes@ != Set::<u8>::empty()
                && self.hours@ != Set::<u8>::empty() && self.days@ != Set::<u8>::empty()
                && self.months@ != Set::<u8>::empty() && self.days_of_week@ == Set::<u8>::empty()
                ==> (r matches Err(e) && e@ == "Days of week field is empty"@),
    {
        if self.seconds.is_empty() {
            return Err(string_of("Seconds field is empty"));
        }
        if self.minutes.is_empty() {
            return Err(string_of("Minutes field is empty"));
        }
        if self.hours.is_empty() {
            return Err(string_of("Hours field is empty"));
        }
        if self.days.is_empty() {
            return Err(string_of("Days field is empty"));
        }
        if self.months.is_empty() {
            return Err(string_of("Months field is empty"));
        }
        if self.days_of_week.is_empty() {
            return Err(string_of("Days of week field is empty"));
        }
        Ok(())
    }
}

} // verus!
