//! Validation reports: errors, warnings and one result per named check.

use vstd::prelude::*;
use crate::text::{str_equal, string_of};

verus! {

/// The result of one named check.
#[derive(Debug, Clone)]
pub struct CheckResult {
    /// Name of the check.
    pub name: String,
    /// Whether it passed.
    pub passed: bool,
    /// Its message, if any.
    pub message: Option<String>,
}

/// A check as plain values: name, passed, message.
pub type CheckView = (Seq<char>, bool, Option<Seq<char>>);

/// The plain values of an optional string.
pub open spec fn opt_view(o: Option<String>) -> Option<Seq<char>> {
    match o {
        Some(s) => Some(s@),
        None => None,
    }
}

/// The plain values of a check.
pub open spec fn check_view(c: CheckResult) -> CheckView {
    (c.name@, c.passed, opt_view(c.message))
}

/// The plain values of each check.
pub open spec fn check_views(s: Seq<CheckResult>) -> Seq<CheckView> {
    s.map_values(|c: CheckResult| check_view(c))
}

/// The position of the first check named `name` in `d`, or -1.
pub open spec fn index_named(d: Seq<CheckView>, name: Seq<char>) -> int
    decreases d.len(),
{
    if d.len() == 0 {
        -1
    } else if d[0].0 == name {
        0
    } else {
        let k = index_named(d.drop_first(), name);
        if k < 0 {
            -1
        } else {
            k + 1
        }
    }
}

/// `d` with `c` recorded: a check of the same name is replaced in place,
/// otherwise `c` is added at the end.
pub open spec fn put_check(d: Seq<CheckView>, c: CheckView) -> Seq<CheckView> {
    let i = index_named(d, c.0);
    if i >= 0 {
        d.update(i, c)
    } else {
        d.push(c)
    }
}

/// `d` with each check of `o` recorded in order.
pub open spec fn put_all(d: Seq<CheckView>, o: Seq<CheckView>) -> Seq<CheckView>
    decreases o.len(),
{
    if o.len() == 0 {
        d
    } else {
        put_check(put_all(d, o.drop_last()), o.last())
    }
}

proof fn lemma_index_named(d: Seq<CheckView>, name: Seq<char>, i: int)
    requires
        0 <= i <= d.len(),
        forall|j: int| 0 <= j < i ==> (#[trigger] d[j]).0 != name,
    ensures
        i < d.len() && d[i].0 == name ==> index_named(d, name) == i,
        i == d.len() ==> index_named(d, name) == -1,
        -1 <= index_named(d, name) < d.len(),
    decreases d.len(),
{
    if d.len() > 0 && d[0].0 != name {
        assert forall|j: int| 0 <= j < i - 1 implies (#[trigger] d.drop_first()[j]).0 != name by {
            assert(d.drop_first()[j] == d[j + 1]);
        }
        if i > 0 {
            lemma_index_named(d.drop_first(), name, i - 1);
        } else {
            lemma_index_named(d.drop_first(), name, 0);
        }
    }
}

/// The checks of a report, one per name.
#[derive(Debug, Clone)]
pub struct CheckDetails {
    entries: Vec<CheckResult>,
}

impl View for CheckDetails {
    type V = Seq<CheckView>;

    closed spec fn view(&self) -> Seq<CheckView> {
        check_views(self.entries@)
    }
}

impl CheckDetails {
    /// No checks.
    pub fn new() -> (r: Self)
        ensures
            r@.len() == 0,
    {
        let r = CheckDetails { entries: Vec::new() };
        assert(r@ =~= Seq::<CheckView>::empty());
        r
    }

    fn find(&self, name: &str) -> (r: Option<usize>)
        ensures
            r is None ==> index_named(self@, name@) == -1,
            r matches Some(i) ==> index_named(self@, name@) == i && i < self@.len(),
    {
        let mut i: usize = 0;
        while i < self.entries.len()
            invariant
                i <= self.entries@.len(),
                self@.len() == self.entries@.len(),
                forall|j: int| 0 <= j < i ==> (#[trigger] self@[j]).0 != name@,
            decreases self.entries.len() - i,
        {
            if str_equal(self.entries[i].name.as_str(), name) {
                proof {
                    lemma_index_named(self@, name@, i as int);
                }
                return Some(i);
            }
            i = i + 1;
        }
        proof {
            lemma_index_named(self@, name@, i as int);
        }
        None
    }

    /// Records a check, replacing one of the same name.
    pub fn insert(&mut self, check: CheckResult)
        ensures
            final(self)@ == put_check(old(self)@, check_view(check)),
    {
        match self.find(check.name.as_str()) {
            Some(i) => {
                self.entries.set(i, check);
            },
            None => {
                self.entries.push(check);
            },
        }
        assert(self@ =~= put_check(old(self)@, check_view(check)));
    }

    /// Records each check of `other` in order.
    pub fn extend(&mut self, other: CheckDetails)
        ensures
            final(self)@ == put_all(old(self)@, other@),
    {
        let mut rest = other.entries;
        let ghost all = check_views(rest@);
        let n = rest.len();
        let mut i: usize = 0;
        while i < n
            invariant
                i <= n,
                n == all.len(),
                check_views(rest@) == all.subrange(i as int, n as int),
                self@ == put_all(old(self)@, all.subrange(0, i as int)),
            decreases n - i,
        {
            let ghost r0 = rest@;
            assert(check_views(r0).len() == r0.len());
            let c = rest.remove(0);
            proof {
                assert(check_views(r0)[0] == check_view(c));
                assert(all.subrange(i as int, n as int)[0] == check_view(c));
                assert forall|k: int| 0 <= k < rest@.len() implies #[trigger] check_views(rest@)[k] == all.subrange(i as int + 1, n as int)[k] by {
                    assert(rest@[k] == r0[k + 1]);
                    assert(check_views(r0)[k + 1] == all.subrange(
                        i as int,
                        n as int,
                    )[k + 1]);
                }
                assert(check_views(rest@) =~= all.subrange(i as int + 1, n as int));
                assert(all.subrange(0, i as int + 1).drop_last() =~= all.subrange(0, i as int));
                assert(all.subrange(0, i as int + 1).last() == check_view(c));
            }
            self.insert(c);
            i = i + 1;
        }
        assert(all.subrange(0, n as int) =~= all);
        assert(all =~= other@);
    }

    /// Whether a check named `name` is recorded.
    pub fn contains_key(&self, name: &str) -> (r: bool)
        ensures
            r == (index_named(self@, name@) >= 0),
    {
        self.find(name).is_some()
    }

    /// The check named `name`.
    pub fn get(&self, name: &str) -> (r: Option<&CheckResult>)
        ensures
            r is None <==> index_named(self@, name@) < 0,
            r matches Some(c) ==> check_view(*c) == self@[index_named(self@, name@)],
    {
        match self.find(name) {
            Some(i) => Some(&self.entries[i]),
            None => None,
        }
    }

    /// How many checks are recorded.
    pub fn len(&self) -> (r: usize)
        ensures
            r == self@.len(),
    {
        self.entries.len()
    }

    /// Whether no check is recorded.
    pub fn is_empty(&self) -> (r: bool)
        ensures
            r == (self@.len() == 0),
    {
        self.entries.len() == 0
    }
}

/// A report as plain values: passed, errors, warnings, checks.
pub type ReportView = (bool, Seq<Seq<char>>, Seq<Seq<char>>, Seq<CheckView>);

/// A report with nothing in it.
pub open spec fn empty_report() -> ReportView {
    (true, Seq::empty(), Seq::empty(), Seq::empty())
}

/// `r` with a failed check `name` and its error.
pub open spec fn with_error(r: ReportView, name: Seq<char>, msg: Seq<char>) -> ReportView {
    (false, r.1.push(msg), r.2, put_check(r.3, (name, false, Some(msg))))
}

/// `r` with a passed check `name` and its warning.
pub open spec fn with_warning(r: ReportView, name: Seq<char>, msg: Seq<char>) -> ReportView {
    (r.0, r.1, r.2.push(msg), put_check(r.3, (name, true, Some(msg))))
}

/// `r` with a passed check `name`.
pub open spec fn with_pass(r: ReportView, name: Seq<char>) -> ReportView {
    (r.0, r.1, r.2, put_check(r.3, (name, true, None)))
}

/// `r` followed by `o`.
pub open spec fn merged(r: ReportView, o: ReportView) -> ReportView {
    (r.0 && o.0, r.1 + o.1, r.2 + o.2, put_all(r.3, o.3))
}

/// The outcome of a validation.
#[derive(Debug, Clone)]
pub struct ValidationResult {
    /// Whether no check failed.
    pub passed: bool,
    /// The errors, in order.
    pub errors: Vec<String>,
    /// The warnings, in order.
    pub warnings: Vec<String>,
    /// One result per check.
    pub details: CheckDetails,
}

/// The characters of each string.
pub open spec fn texts(v: Seq<String>) -> Seq<Seq<char>> {
    v.map_values(|s: String| s@)
}

impl View for ValidationResult {
    type V = ReportView;

    open spec fn view(&self) -> ReportView {
        (self.passed, texts(self.errors@), texts(self.warnings@), self.details@)
    }
}

impl ValidationResult {
    /// A passing report with nothing in it.
    pub fn new() -> (r: Self)
        ensures
            r@ == empty_report(),
    {
        let r = ValidationResult {
            passed: true,
            errors: Vec::new(),
            warnings: Vec::new(),
            details: CheckDetails::new(),
        };
        assert(r@ =~= empty_report());
        r
    }

    /// Records a failed check and its error; the report no longer passes.
    pub fn add_error(&mut self, check_name: &str, error: String)
        ensures
            final(self)@ == with_error(old(self)@, check_name@, error@),
    {
        self.passed = false;
        self.errors.push(error.clone());
        self.details.insert(
            CheckResult { name: string_of(check_name), passed: false, message: Some(error) },
        );
        assert(texts(self.errors@) =~= texts(old(self).errors@).push(error@));
    }

    /// Records a passed check with a warning.
    pub fn add_warning(&mut self, check_name: &str, warning: String)
        ensures
            final(self)@ == with_warning(old(self)@, check_name@, warning@),
    {
        self.warnings.push(warning.clone());
        self.details.insert(
            CheckResult { name: string_of(check_name), passed: true, message: Some(warning) },
        );
        assert(texts(self.warnings@) =~= texts(old(self).warnings@).push(warning@));
    }

    /// Records a passed check.
    pub fn add_pass(&mut self, check_name: &str)
        ensures
            final(self)@ == with_pass(old(self)@, check_name@),
    {
        self.details.insert(CheckResult { name: string_of(check_name), passed: true, message: None });
    }

    /// Appends another report: it fails if either failed.
    pub fn merge(&mut self, other: ValidationResult)
        ensures
            final(self)@ == merged(old(self)@, other@),
    {
        if !other.passed {
            self.passed = false;
        }
        let ValidationResult { passed: _, errors, warnings, details } = other;
        let mut errors = errors;
        let mut warnings = warnings;
        let ghost e0 = self.errors@;
        let ghost w0 = self.warnings@;
        let ghost e1 = errors@;
        let ghost w1 = warnings@;
        self.errors.append(&mut errors);
        self.warnings.append(&mut warnings);
        self.details.extend(details);
        assert(texts(self.errors@) =~= texts(e0) + texts(e1));
        assert(texts(self.warnings@) =~= texts(w0) + texts(w1));
    }
}

impl Default for ValidationResult {
    fn default() -> (r: Self)
        ensures
            r@ == empty_report(),
    {
        Self::new()
    }
}


/// A report is valid only while no error was added: an error makes it
/// invalid, a warning or a pass keeps its validity, and two reports merged
/// are valid exactly when both are.
pub proof fn lemma_report_validity(r: ReportView, o: ReportView, name: Seq<char>, msg: Seq<char>)
    ensures
        !with_error(r, name, msg).0,
        with_warning(r, name, msg).0 == r.0,
        with_pass(r, name).0 == r.0,
        merged(r, o).0 == (r.0 && o.0),
        empty_report().0,
{
}

} // verus!
