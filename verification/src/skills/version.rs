//! Version locks on skills and the manager that enforces them.

use vstd::prelude::*;
use crate::clock::wall_clock_millis;
use crate::ids::{is_uuid_v4_text, new_uuid_v4};
use crate::skills::definition::{version_le, version_text, SkillVersion};
use crate::skills::error::{Result, SkillsError};
use crate::text::{str_equal, string_of};

verus! {

/// How a lock constrains versions.
#[derive(Debug, Clone, Copy, PartialEq, Eq, Structural)]
pub enum LockType {
    /// Exactly the locked version.
    Exact,
    /// Between a lowest and a highest version.
    Range,
    /// At least a lowest version.
    Minimum,
    /// Compatible with the locked version.
    Compatible,
}

/// A lock on the versions of a skill.
#[derive(Debug, Clone)]
pub struct VersionLock {
    /// Identifier.
    pub id: String,
    /// The skill locked.
    pub skill_id: String,
    /// How it is locked.
    pub lock_type: LockType,
    /// The version locked to.
    pub locked_version: SkillVersion,
    /// Lowest version allowed, if any.
    pub min_version: Option<SkillVersion>,
    /// Highest version allowed, if any.
    pub max_version: Option<SkillVersion>,
    /// Creation time, in milliseconds since the epoch.
    pub created_at: i64,
    /// Who made it.
    pub created_by: String,
    /// Why.
    pub reason: String,
    /// Whether it must be obeyed.
    pub forced: bool,
}

/// Whether `v` meets a lock of the given kind and bounds.
pub open spec fn lock_allows(
    lock_type: LockType,
    locked: SkillVersion,
    min: Option<SkillVersion>,
    max: Option<SkillVersion>,
    v: SkillVersion,
) -> bool {
    match lock_type {
        LockType::Exact => v == locked,
        LockType::Range => (min matches Some(m) ==> version_le(m, v)) && (max matches Some(m)
            ==> version_le(v, m)),
        LockType::Minimum => min matches Some(m) ==> version_le(m, v),
        LockType::Compatible => v.major == locked.major && v.minor >= locked.minor,
    }
}

impl VersionLock {
    /// Whether `v` meets this lock.
    pub open spec fn allows(&self, v: SkillVersion) -> bool {
        lock_allows(self.lock_type, self.locked_version, self.min_version, self.max_version, v)
    }

    fn make(
        skill_id: String,
        lock_type: LockType,
        locked_version: SkillVersion,
        min_version: Option<SkillVersion>,
        max_version: Option<SkillVersion>,
        created_by: String,
        reason: String,
    ) -> (r: Self)
        ensures
            is_uuid_v4_text(r.id@),
            r.skill_id == skill_id,
            r.lock_type == lock_type,
            r.locked_version == locked_version,
            r.min_version == min_version,
            r.max_version == max_version,
            r.created_by == created_by,
            r.reason == reason,
            !r.forced,
    {
        VersionLock {
            id: new_uuid_v4(),
            skill_id,
            lock_type,
            locked_version,
            min_version,
            max_version,
            created_at: wall_clock_millis(),
            created_by,
            reason,
            forced: false,
        }
    }

    /// A lock to exactly `version`.
    pub fn exact(skill_id: String, version: SkillVersion, created_by: String, reason: String) -> (r: Self)
        ensures
            is_uuid_v4_text(r.id@),
            r.skill_id == skill_id,
            r.lock_type == LockType::Exact,
            r.locked_version == version,
            r.min_version is None,
            r.max_version is None,
            r.created_by == created_by,
            r.reason == reason,
            !r.forced,
    {
        Self::make(skill_id, LockType::Exact, version, None, None, created_by, reason)
    }

    /// A lock to versions from `min_version` to `max_version`.
    pub fn range(
        skill_id: String,
        min_version: SkillVersion,
        max_version: SkillVersion,
        created_by: String,
        reason: String,
    ) -> (r: Self)
        ensures
            is_uuid_v4_text(r.id@),
            r.skill_id == skill_id,
            r.lock_type == LockType::Range,
            r.locked_version == max_version,
            r.min_version == Some(min_version),
            r.max_version == Some(max_version),
            r.created_by == created_by,
            r.reason == reason,
            !r.forced,
    {
        Self::make(
            skill_id,
            LockType::Range,
            max_version,
            Some(min_version),
            Some(max_version),
            created_by,
            reason,
        )
    }

    /// A lock to `min_version` or newer.
    pub fn minimum(skill_id: String, min_version: SkillVersion, created_by: String, reason: String) -> (r: Self)
        ensures
            is_uuid_v4_text(r.id@),
            r.skill_id == skill_id,
            r.lock_type == LockType::Minimum,
            r.locked_version == min_version,
            r.min_version == Some(min_version),
            r.max_version is None,
            r.created_by == created_by,
            r.reason == reason,
            !r.forced,
    {
        Self::make(skill_id, LockType::Minimum, min_version, Some(min_version), None, created_by, reason)
    }

    /// A lock to versions compatible with `version`.
    pub fn compatible(skill_id: String, version: SkillVersion, created_by: String, reason: String) -> (r: Self)
        ensures
            is_uuid_v4_text(r.id@),
            r.skill_id == skill_id,
            r.lock_type == LockType::Compatible,
            r.locked_version == version,
            r.min_version is None,
            r.max_version is None,
            r.created_by == created_by,
            r.reason == reason,
            !r.forced,
    {
        Self::make(skill_id, LockType::Compatible, version, None, None, created_by, reason)
    }

    /// The same lock, forced.
    pub fn with_forced(self) -> (r: Self)
        ensures
            r == (VersionLock { forced: true, ..self }),
    {
        let mut l = self;
        l.forced = true;
        l
    }

    /// Whether `version` meets the lock.
    pub fn is_satisfied(&self, version: &SkillVersion) -> (r: bool)
        ensures
            r == self.allows(*version),
    {
        match self.lock_type {
            LockType::Exact => *version == self.locked_version,
            LockType::Range => {
                let min_ok = match &self.min_version {
                    Some(min) => min.le(version),
                    None => true,
                };
                let max_ok = match &self.max_version {
                    Some(max) => version.le(max),
                    None => true,
                };
                min_ok && max_ok
            },
            LockType::Minimum => match &self.min_version {
                Some(min) => min.le(version),
                None => true,
            },
            LockType::Compatible => version.is_compatible(&self.locked_version),
        }
    }
}

/// Whether some forced lock of skill `skill_id` in `locks` refuses `v`.
pub open spec fn forced_conflict(locks: Seq<VersionLock>, skill_id: Seq<char>, v: SkillVersion) -> bool {
    exists|i: int|
        0 <= i < locks.len() && (#[trigger] locks[i]).skill_id@ == skill_id && locks[i].forced
            && !locks[i].allows(v)
}

/// The message for a version refused by the forced lock `lock_id`.
pub open spec fn conflict_message(v: SkillVersion, lock_id: Seq<char>) -> Seq<char> {
    "版本 "@ + version_text(v) + " 不满足强制锁定: "@ + lock_id
}

/// Whether a lock made at `created_at` is kept by a cleanup at `now_ms` of
/// locks older than `days` days: it is newer than the cutoff, or forced.
pub open spec fn lock_kept(l: VersionLock, now_ms: i64, days: u32) -> bool {
    l.created_at > cutoff_ms(now_ms, days) || l.forced
}

/// The registered versions with skill `k` set to `v`: replaced in place when
/// registered, otherwise added at the end.
pub open spec fn assign_version(
    s: Seq<(Seq<char>, SkillVersion)>,
    k: Seq<char>,
    v: SkillVersion,
) -> Seq<(Seq<char>, SkillVersion)> {
    if exists|i: int| 0 <= i < s.len() && (#[trigger] s[i]).0 == k {
        s.map_values(|e: (Seq<char>, SkillVersion)| if e.0 == k { (k, v) } else { e })
    } else {
        s.push((k, v))
    }
}

/// The cutoff time of a cleanup at `now_ms` of locks older than `days`
/// days, in milliseconds, kept within `i64`.
pub open spec fn cutoff_ms(now_ms: i64, days: u32) -> int {
    if now_ms - days * 86_400_000 < i64::MIN {
        i64::MIN as int
    } else {
        now_ms - days * 86_400_000
    }
}

/// The locks a cleanup at `now_ms` of locks older than `days` days keeps,
/// in order.
pub open spec fn kept_locks(locks: Seq<VersionLock>, now_ms: i64, days: u32) -> Seq<VersionLock> {
    locks.filter(|l: VersionLock| lock_kept(l, now_ms, days))
}

/// Keeps the version locks and the registered version of each skill.
#[derive(Debug)]
pub struct VersionManager {
    locks: Vec<VersionLock>,
    locked_skills: Vec<String>,
    skill_ids: Vec<String>,
    versions: Vec<SkillVersion>,
}

impl VersionManager {
    /// Every lock, in creation order.
    pub closed spec fn all_locks(&self) -> Seq<VersionLock> {
        self.locks@
    }

    /// The skills that ever got a lock, in order.
    pub closed spec fn lock_skills(&self) -> Seq<Seq<char>> {
        self.locked_skills@.map_values(|s: String| s@)
    }

    /// The registered version of each skill: pairs of skill and version.
    pub closed spec fn registered(&self) -> Seq<(Seq<char>, SkillVersion)> {
        Seq::new(self.skill_ids@.len(), |i: int| (self.skill_ids@[i]@, self.versions@[i]))
    }

    /// The manager's invariant: skills and versions line up, and no skill
    /// appears twice in a list.
    pub closed spec fn wf(&self) -> bool {
        &&& self.skill_ids@.len() == self.versions@.len()
        &&& forall|i: int, j: int|
            0 <= i < self.skill_ids@.len() && 0 <= j < self.skill_ids@.len() && i != j
                ==> (#[trigger] self.skill_ids@[i])@ != (#[trigger] self.skill_ids@[j])@
        &&& forall|i: int, j: int|
            0 <= i < self.locked_skills@.len() && 0 <= j < self.locked_skills@.len() && i != j
                ==> (#[trigger] self.locked_skills@[i])@ != (#[trigger] self.locked_skills@[j])@
    }

    /// A manager with no locks and no versions.
    pub fn new() -> (r: Self)
        ensures
            r.wf(),
            r.all_locks().len() == 0,
            r.lock_skills().len() == 0,
            r.registered().len() == 0,
    {
        let r = VersionManager {
            locks: Vec::new(),
            locked_skills: Vec::new(),
            skill_ids: Vec::new(),
            versions: Vec::new(),
        };
        assert(r.lock_skills() =~= Seq::<Seq<char>>::empty());
        assert(r.registered() =~= Seq::<(Seq<char>, SkillVersion)>::empty());
        r
    }

    fn index_in(list: &Vec<String>, s: &str) -> (r: Option<usize>)
        ensures
            r is None ==> forall|j: int| 0 <= j < list@.len() ==> (#[trigger] list@[j])@ != s@,
            r matches Some(i) ==> i < list@.len() && list@[i as int]@ == s@,
    {
        let mut i: usize = 0;
        while i < list.len()
            invariant
                i <= list@.len(),
                forall|j: int| 0 <= j < i ==> (#[trigger] list@[j])@ != s@,
            decreases list.len() - i,
        {
            if str_equal(list[i].as_str(), s) {
                return Some(i);
            }
            i = i + 1;
        }
        None
    }

    /// Adds a lock and returns its identifier.
    pub fn create_lock(&mut self, lock: VersionLock) -> (r: Result<String>)
        requires
            old(self).wf(),
        ensures
            final(self).wf(),
            r matches Ok(id) && id@ == lock.id@,
            final(self).all_locks() == old(self).all_locks().push(lock),
            old(self).lock_skills().contains(lock.skill_id@) ==> final(self).lock_skills() == old(
                self,
            ).lock_skills(),
            !old(self).lock_skills().contains(lock.skill_id@) ==> final(self).lock_skills() == old(
                self,
            ).lock_skills().push(lock.skill_id@),
            final(self).registered() == old(self).registered(),
    {
        let id = lock.id.clone();
        match Self::index_in(&self.locked_skills, lock.skill_id.as_str()) {
            Some(i) => {
                assert(self.lock_skills()[i as int] == lock.skill_id@);
            },
            None => {
                let ghost before = self.locked_skills@;
                self.locked_skills.push(lock.skill_id.clone());
                assert(self.lock_skills() =~= old(self).lock_skills().push(lock.skill_id@));
                assert forall|j: int| 0 <= j < old(self).lock_skills().len() implies #[trigger] old(
                    self,
                ).lock_skills()[j] != lock.skill_id@ by {
                    assert(old(self).lock_skills()[j] == before[j]@);
                }
            },
        }
        self.locks.push(lock);
        Ok(id)
    }

    /// The locks of `skill_id`, in creation order.
    pub fn get_locks(&self, skill_id: &str) -> (r: Vec<&VersionLock>)
        ensures
            r@.len() == self.all_locks().filter(|l: VersionLock| l.skill_id@ == skill_id@).len(),
            forall|k: int|
                0 <= k < r@.len() ==> *(#[trigger] r@[k]) == self.all_locks().filter(
                    |l: VersionLock| l.skill_id@ == skill_id@,
                )[k],
    {
        let ghost keep = |l: VersionLock| l.skill_id@ == skill_id@;
        let mut r: Vec<&VersionLock> = Vec::new();
        let mut i: usize = 0;
        while i < self.locks.len()
            invariant
                i <= self.locks@.len(),
                keep == (|l: VersionLock| l.skill_id@ == skill_id@),
                r@.len() == self.locks@.subrange(0, i as int).filter(keep).len(),
                forall|k: int| 0 <= k < r@.len() ==> *(#[trigger] r@[k]) == self.locks@.subrange(0, i as int).filter(keep)[k],
            decreases self.locks.len() - i,
        {
            proof {
                assert(self.locks@.subrange(0, i as int + 1) =~= self.locks@.subrange(0, i as int).push(self.locks@[i as int]));
                self.locks@.subrange(0, i as int).lemma_filter_push(self.locks@[i as int], keep);
            }
            if str_equal(self.locks[i].skill_id.as_str(), skill_id) {
                r.push(&self.locks[i]);
            }
            i = i + 1;
        }
        assert(self.locks@.subrange(0, i as int) =~= self.locks@);
        r
    }

    /// Checks `version` against the locks of `skill_id`: only a forced lock
    /// it does not meet refuses it.
    pub fn check_version(&self, skill_id: &str, version: &SkillVersion) -> (r: Result<bool>)
        ensures
            r is Ok <==> !forced_conflict(self.all_locks(), skill_id@, *version),
            r matches Ok(b) ==> b,
            r matches Err(SkillsError::VersionConflict(m)) ==> exists|i: int|
                0 <= i < self.all_locks().len() && (#[trigger] self.all_locks()[i]).skill_id@
                    == skill_id@ && self.all_locks()[i].forced && !self.all_locks()[i].allows(*version)
                    && m@ == conflict_message(*version, self.all_locks()[i].id@) && forall|j: int|
                    0 <= j < i ==> !(self.all_locks()[j].skill_id@ == skill_id@ && self.all_locks()[j].forced
                        && !self.all_locks()[j].allows(*version)),
            r is Err ==> r matches Err(SkillsError::VersionConflict(_)),
    {
        let mut i: usize = 0;
        while i < self.locks.len()
            invariant
                i <= self.locks@.len(),
                forall|j: int|
                    0 <= j < i ==> !((#[trigger] self.locks@[j]).skill_id@ == skill_id@ && self.locks@[j].forced
                        && !self.locks@[j].allows(*version)),
            decreases self.locks.len() - i,
        {
            let l = &self.locks[i];
            if str_equal(l.skill_id.as_str(), skill_id) && !l.is_satisfied(version) && l.forced {
                let mut m = string_of("版本 ");
                let vt = version.to_string();
                m.append(vt.as_str());
                m.append(" 不满足强制锁定: ");
                m.append(l.id.as_str());
                assert(self.all_locks()[i as int] == *l);
                return Err(SkillsError::VersionConflict(m));
            }
            i = i + 1;
        }
        Ok(true)
    }

    /// Registers the version of a skill, unless a forced lock refuses it.
    pub fn register_version(&mut self, skill_id: String, version: SkillVersion) -> (r: Result<()>)
        requires
            old(self).wf(),
        ensures
            final(self).wf(),
            r is Ok <==> !forced_conflict(old(self).all_locks(), skill_id@, version),
            r is Err ==> final(self).registered() == old(self).registered(),
            r is Ok ==> final(self).registered() == assign_version(
                old(self).registered(),
                skill_id@,
                version,
            ),
            final(self).all_locks() == old(self).all_locks(),
            final(self).lock_skills() == old(self).lock_skills(),
    {
        self.check_version(skill_id.as_str(), &version)?;
        match Self::index_in(&self.skill_ids, skill_id.as_str()) {
            Some(i) => {
                assert(old(self).registered()[i as int].0 == skill_id@);
                self.versions.set(i, version);
                assert(self.registered().len() == old(self).registered().len());
                assert forall|j: int| 0 <= j < self.registered().len() implies #[trigger] self.registered()[j]
                    == assign_version(old(self).registered(), skill_id@, version)[j] by {
                    assert(self.registered()[j] == (self.skill_ids@[j]@, self.versions@[j]));
                    assert(old(self).registered()[j] == (old(self).skill_ids@[j]@, old(self).versions@[j]));
                    if j != i {
                        assert(old(self).skill_ids@[j]@ != old(self).skill_ids@[i as int]@);
                    }
                }
                assert(self.registered() =~= assign_version(old(self).registered(), skill_id@, version));
            },
            None => {
                let ghost k = skill_id@;
                assert forall|j: int| 0 <= j < old(self).registered().len() implies (#[trigger] old(self).registered()[j]).0 != k by {
                }
                self.skill_ids.push(skill_id);
                self.versions.push(version);
                assert(self.registered() =~= old(self).registered().push((k, version)));
                assert forall|a: int, b: int|
                    0 <= a < self.skill_ids@.len() && 0 <= b < self.skill_ids@.len() && a != b implies (
                    #[trigger] self.skill_ids@[a])@ != (#[trigger] self.skill_ids@[b])@ by {
                    if a == self.skill_ids@.len() - 1 {
                        assert(old(self).registered()[b].0 == self.skill_ids@[b]@);
                    } else if b == self.skill_ids@.len() - 1 {
                        assert(old(self).registered()[a].0 == self.skill_ids@[a]@);
                    }
                }
            },
        }
        Ok(())
    }

    /// The registered version of a skill.
    pub fn get_version(&self, skill_id: &str) -> (r: Option<SkillVersion>)
        requires
            self.wf(),
        ensures
            r is None ==> forall|j: int| 0 <= j < self.registered().len() ==> (#[trigger] self.registered()[j]).0 != skill_id@,
            r matches Some(v) ==> exists|j: int|
                0 <= j < self.registered().len() && #[trigger] self.registered()[j] == (skill_id@, v),
    {
        match Self::index_in(&self.skill_ids, skill_id) {
            Some(i) => {
                assert(self.registered()[i as int] == (skill_id@, self.versions@[i as int]));
                Some(self.versions[i])
            },
            None => {
                assert forall|j: int| 0 <= j < self.registered().len() implies (#[trigger] self.registered()[j]).0 != skill_id@ by {
                    assert(self.registered()[j].0 == self.skill_ids@[j]@);
                }
                None
            },
        }
    }

    /// Removes the first lock with identifier `lock_id`.
    pub fn remove_lock(&mut self, lock_id: &str) -> (r: Result<()>)
        requires
            old(self).wf(),
        ensures
            final(self).wf(),
            r is Ok <==> exists|i: int| 0 <= i < old(self).all_locks().len() && (#[trigger] old(self).all_locks()[i]).id@ == lock_id@,
            r is Ok ==> exists|i: int|
                0 <= i < old(self).all_locks().len() && (#[trigger] old(self).all_locks()[i]).id@ == lock_id@
                    && (forall|j: int| 0 <= j < i ==> old(self).all_locks()[j].id@ != lock_id@)
                    && final(self).all_locks() == old(self).all_locks().remove(i),
            r matches Err(e) ==> e matches SkillsError::NotFound(m) && m@ == lock_id@
                && final(self).all_locks() == old(self).all_locks(),
            final(self).lock_skills() == old(self).lock_skills(),
            final(self).registered() == old(self).registered(),
    {
        let mut i: usize = 0;
        while i < self.locks.len()
            invariant
                i <= self.locks@.len(),
                self.locks@ == old(self).locks@,
                self.locked_skills@ == old(self).locked_skills@,
                self.skill_ids@ == old(self).skill_ids@,
                self.versions@ == old(self).versions@,
                old(self).wf(),
                forall|j: int| 0 <= j < i ==> (#[trigger] self.locks@[j]).id@ != lock_id@,
            decreases self.locks.len() - i,
        {
            if str_equal(self.locks[i].id.as_str(), lock_id) {
                assert(old(self).all_locks()[i as int].id@ == lock_id@);
                let _ = self.locks.remove(i);
                return Ok(());
            }
            i = i + 1;
        }
        Err(SkillsError::NotFound(string_of(lock_id)))
    }

    /// The skills that ever got a lock.
    pub fn get_locked_skills(&self) -> (r: Vec<String>)
        ensures
            r@.map_values(|s: String| s@) == self.lock_skills(),
    {
        let r = self.locked_skills.clone();
        assert(r@ =~= self.locked_skills@);
        r
    }

    /// Removes, as of `now_ms`, the locks older than `days` days that are
    /// not forced, and returns how many were removed.
    pub fn cleanup_expired_at(&mut self, days: u32, now_ms: i64) -> (r: Result<usize>)
        requires
            old(self).wf(),
        ensures
            final(self).wf(),
            final(self).all_locks() == kept_locks(old(self).all_locks(), now_ms, days),
            r matches Ok(n) && n == old(self).all_locks().len() - final(self).all_locks().len(),
            final(self).lock_skills() == old(self).lock_skills(),
            final(self).registered() == old(self).registered(),
    {
        let span: i64 = (days as i64) * 86_400_000;
        let cutoff: i64 = if now_ms < i64::MIN + span {
            i64::MIN
        } else {
            now_ms - span
        };
        let ghost keep = |l: VersionLock| lock_kept(l, now_ms, days);
        let mut kept: Vec<VersionLock> = Vec::new();
        let mut rest: Vec<VersionLock> = Vec::new();
        std::mem::swap(&mut rest, &mut self.locks);
        let ghost all = rest@;
        let n = rest.len();
        let mut i: usize = 0;
        while i < n
            invariant
                n == all.len(),
                i <= n,
                cutoff == cutoff_ms(now_ms, days),
                keep == (|l: VersionLock| lock_kept(l, now_ms, days)),
                rest@ == all.subrange(i as int, n as int),
                kept@ == all.subrange(0, i as int).filter(keep),
            decreases n - i,
        {
            let l = rest.remove(0);
            proof {
                assert(l == all[i as int]);
                assert(all.subrange(0, i as int + 1) =~= all.subrange(0, i as int).push(all[i as int]));
                all.subrange(0, i as int).lemma_filter_push(all[i as int], keep);
                assert(rest@ =~= all.subrange(i as int + 1, n as int));
            }
            if l.created_at > cutoff || l.forced {
                kept.push(l);
            }
            i = i + 1;
        }
        assert(all.subrange(0, n as int) == all);
        proof {
            all.lemma_filter_len(keep);
        }
        let count = n - kept.len();
        self.locks = kept;
        Ok(count)
    }

    /// Removes the locks older than `days` days that are not forced, as of
    /// now, and returns how many were removed.
    pub fn cleanup_expired(&mut self, days: u32) -> (r: Result<usize>)
        requires
            old(self).wf(),
        ensures
            final(self).wf(),
            exists|now_ms: i64|
                final(self).all_locks() == #[trigger] kept_locks(old(self).all_locks(), now_ms, days),
            r matches Ok(n) && n == old(self).all_locks().len() - final(self).all_locks().len(),
            final(self).lock_skills() == old(self).lock_skills(),
            final(self).registered() == old(self).registered(),
    {
        let now = wall_clock_millis();
        self.cleanup_expired_at(days, now)
    }
}

impl Default for VersionManager {
    fn default() -> (r: Self)
        ensures
            r.wf(),
            r.all_locks().len() == 0,
    {
        Self::new()
    }
}

/// A minimum lock admits every version numerically at or above its
/// minimum and no version below it: a higher major, or the same major and
/// a higher minor, or the same major and minor and a patch at least the
/// minimum's.
pub proof fn lemma_minimum_lock_is_numeric(locked: SkillVersion, m: SkillVersion, max: Option<SkillVersion>, v: SkillVersion)
    ensures
        lock_allows(LockType::Minimum, locked, Some(m), max, v) <==> (m.major < v.major || (m.major
            == v.major && m.minor < v.minor) || (m.major == v.major && m.minor == v.minor && m.patch
            <= v.patch)),
{
}

} // verus!
