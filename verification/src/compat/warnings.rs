//! Known incompatibilities between models and inference engines: which
//! warnings apply to a model, in what order they are shown, and how a
//! user's own entries override the bundled ones.
use vstd::prelude::*;
use crate::text;
use crate::text::{str_lower, seq_contains, seq_starts_with};
use crate::models::ModelInfo;
use crate::hardware::engines::{EngineInfo, InferenceEngines};

verus! {

/// How serious a warning is.
#[derive(Debug, Clone, Copy, PartialEq, Eq, Structural)]
pub enum WarningSeverity {
    Breaking,
    Caution,
    Info,
}

impl WarningSeverity {
    /// A one-char marker for the severity.
    pub fn icon(&self) -> (r: &'static str)
        ensures
            r@ == match *self {
                WarningSeverity::Info => "ℹ"@,
                WarningSeverity::Caution => "⚠"@,
                WarningSeverity::Breaking => "✗"@,
            },
    {
        match self {
            WarningSeverity::Info => "ℹ",
            WarningSeverity::Caution => "⚠",
            WarningSeverity::Breaking => "✗",
        }
    }
}

/// One known problem of an engine with some models. The criteria that are
/// set must all match the model.
pub struct CompatWarning {
    pub id: String,
    pub model_type: Option<String>,
    pub architecture: Option<String>,
    pub model_family: Option<String>,
    pub is_moe: Option<bool>,
    /// The engine the warning is about.
    pub engine: String,
    pub severity: WarningSeverity,
    pub summary: String,
    pub detail: Option<String>,
    pub workaround: Option<String>,
    pub fixed_in: Option<String>,
    pub references: Option<Vec<String>>,
}

/// The compatibility database.
pub struct CompatDb {
    pub entries: Vec<CompatWarning>,
}

/// Whether an installed engine has the warning's engine name (case-insensitively).
pub open spec fn engine_found(w: CompatWarning, es: Seq<EngineInfo>) -> bool {
    exists|i: int| 0 <= i < es.len() && (#[trigger] es[i]).found && str_lower(es[i].name@) == str_lower(w.engine@)
}

/// An engine-wide warning (architecture "any" or model type "*"), which the
/// per-model list leaves out.
pub open spec fn is_wildcard(w: CompatWarning) -> bool {
    (w.architecture matches Some(a) && a@ == "any"@) || (w.model_type matches Some(t) && t@ == "*"@)
}

/// At least one model criterion is set.
pub open spec fn has_criterion(w: CompatWarning) -> bool {
    w.model_type is Some || w.architecture is Some || w.model_family is Some || w.is_moe is Some
}

/// Every criterion that is set matches the model: model type and
/// architecture by case-insensitive substring, family by case-insensitive
/// name prefix, and the mixture-of-experts flag exactly.
pub open spec fn criteria_match(w: CompatWarning, m: ModelInfo) -> bool {
    &&& (w.model_type matches Some(t) ==> seq_contains(str_lower(m.model_type@), str_lower(t@)))
    &&& (w.architecture matches Some(a) ==> seq_contains(str_lower(m.architecture@), str_lower(a@)))
    &&& (w.model_family matches Some(f) ==> seq_starts_with(str_lower(m.name@), str_lower(f@)))
    &&& (w.is_moe matches Some(b) ==> m.is_moe == b)
}

/// A warning applies to a model when its engine is installed, it is not
/// engine-wide, it names a model criterion, and all its criteria match.
pub open spec fn warning_applies(w: CompatWarning, m: ModelInfo, es: Seq<EngineInfo>) -> bool {
    engine_found(w, es) && !is_wildcard(w) && has_criterion(w) && criteria_match(w, m)
}

/// Whether some installed engine has this name, ignoring case.
fn engine_installed(engine: &str, engines: &InferenceEngines) -> (r: bool)
    ensures
        r == exists|i: int| 0 <= i < engines.engines@.len() && (#[trigger] engines.engines@[i]).found
            && str_lower(engines.engines@[i].name@) == str_lower(engine@),
{
    let wanted = text::to_lower(engine);
    let mut i: usize = 0;
    while i < engines.engines.len()
        invariant
            i <= engines.engines.len(),
            wanted@ == str_lower(engine@),
            forall|j: int| 0 <= j < i ==> !((#[trigger] engines.engines@[j]).found
                && str_lower(engines.engines@[j].name@) == str_lower(engine@)),
        decreases engines.engines.len() - i,
    {
        if engines.engines[i].found {
            let name = text::to_lower(engines.engines[i].name.as_str());
            if text::str_eq(name.as_str(), wanted.as_str()) {
                return true;
            }
        }
        i += 1;
    }
    false
}

fn opt_str_is(v: &Option<String>, s: &str) -> (r: bool)
    ensures
        r == (v matches Some(x) && x@ == s@),
{
    match v {
        Some(x) => text::str_eq(x.as_str(), s),
        None => false,
    }
}

/// Whether `w` applies to `model` with these engines installed.
pub fn warning_matches(warning: &CompatWarning, model: &ModelInfo, engines: &InferenceEngines) -> (r: bool)
    ensures
        r == warning_applies(*warning, *model, engines.engines@),
{
    if !engine_installed(warning.engine.as_str(), engines) {
        return false;
    }
    if opt_str_is(&warning.architecture, "any") || opt_str_is(&warning.model_type, "*") {
        return false;
    }
    let any_criterion = warning.model_type.is_some() || warning.architecture.is_some()
        || warning.model_family.is_some() || warning.is_moe.is_some();
    if !any_criterion {
        return false;
    }
    if let Some(mt) = &warning.model_type {
        let hay = text::to_lower(model.model_type.as_str());
        let needle = text::to_lower(mt.as_str());
        if !text::str_contains(hay.as_str(), needle.as_str()) {
            return false;
        }
    }
    if let Some(arch) = &warning.architecture {
        let hay = text::to_lower(model.architecture.as_str());
        let needle = text::to_lower(arch.as_str());
        if !text::str_contains(hay.as_str(), needle.as_str()) {
            return false;
        }
    }
    if let Some(family) = &warning.model_family {
        let hay = text::to_lower(model.name.as_str());
        let needle = text::to_lower(family.as_str());
        if !text::str_starts_with(hay.as_str(), needle.as_str()) {
            return false;
        }
    }
    if let Some(moe) = warning.is_moe {
        if model.is_moe != moe {
            return false;
        }
    }
    true
}

/// The warnings of `ws` that apply and have severity `sev`, in order.
pub open spec fn applying_with(ws: Seq<CompatWarning>, m: ModelInfo, es: Seq<EngineInfo>, sev: WarningSeverity) -> Seq<CompatWarning>
    decreases ws.len(),
{
    if ws.len() == 0 {
        Seq::empty()
    } else {
        let front = applying_with(ws.drop_last(), m, es, sev);
        if warning_applies(ws.last(), m, es) && ws.last().severity == sev { front.push(ws.last()) } else { front }
    }
}

/// The warnings that apply, breaking ones first, then cautions, then
/// informational ones; database order within each severity.
pub open spec fn found_warnings(ws: Seq<CompatWarning>, m: ModelInfo, es: Seq<EngineInfo>) -> Seq<CompatWarning> {
    applying_with(ws, m, es, WarningSeverity::Breaking)
        + applying_with(ws, m, es, WarningSeverity::Caution)
        + applying_with(ws, m, es, WarningSeverity::Info)
}

/// The warnings a list of references points to.
pub open spec fn derefs(s: Seq<&CompatWarning>) -> Seq<CompatWarning> {
    Seq::new(s.len(), |i: int| *s[i])
}

/// Appends to `out` the applying warnings of severity `sev`.
fn collect_severity<'a>(db: &'a CompatDb, model: &ModelInfo, engines: &InferenceEngines, sev: WarningSeverity, out: &mut Vec<&'a CompatWarning>)
    ensures
        derefs(final(out)@) == derefs(old(out)@) + applying_with(db.entries@, *model, engines.engines@, sev),
{
    let ghost start = derefs(out@);
    let mut i: usize = 0;
    while i < db.entries.len()
        invariant
            i <= db.entries.len(),
            derefs(out@) == start + applying_with(db.entries@.take(i as int), *model, engines.engines@, sev),
        decreases db.entries.len() - i,
    {
        assert(db.entries@.take(i + 1).drop_last() == db.entries@.take(i as int));
        let w = &db.entries[i];
        if w.severity == sev && warning_matches(w, model, engines) {
            let ghost before = out@;
            out.push(w);
            assert(derefs(out@) == derefs(before).push(*w));
        }
        i += 1;
    }
    assert(db.entries@.take(db.entries@.len() as int) == db.entries@);
}

/// The model-specific warnings for `model` with these engines installed,
/// most severe first (engine-wide warnings are left out).
pub fn find_warnings<'a>(db: &'a CompatDb, model: &ModelInfo, engines: &InferenceEngines) -> (r: Vec<&'a CompatWarning>)
    ensures
        derefs(r@) == found_warnings(db.entries@, *model, engines.engines@),
{
    let mut out: Vec<&'a CompatWarning> = Vec::new();
    assert(derefs(out@) == Seq::<CompatWarning>::empty());
    collect_severity(db, model, engines, WarningSeverity::Breaking, &mut out);
    collect_severity(db, model, engines, WarningSeverity::Caution, &mut out);
    collect_severity(db, model, engines, WarningSeverity::Info, &mut out);
    assert(derefs(out@) == found_warnings(db.entries@, *model, engines.engines@));
    out
}

/// The warnings of each model, in the models' order: the table the
/// dashboard shows beside the model list.
pub fn warnings_per_model<'a>(db: &'a CompatDb, models: &Vec<ModelInfo>, engines: &InferenceEngines) -> (r: Vec<Vec<&'a CompatWarning>>)
    ensures
        r.len() == models.len(),
        forall|i: int| 0 <= i < models.len()
            ==> derefs(#[trigger] r[i]@) == found_warnings(db.entries@, models[i], engines.engines@),
{
    let mut out: Vec<Vec<&'a CompatWarning>> = Vec::new();
    let mut i: usize = 0;
    while i < models.len()
        invariant
            i <= models.len(),
            out.len() == i,
            forall|j: int| 0 <= j < i
                ==> derefs(#[trigger] out[j]@) == found_warnings(db.entries@, models[j], engines.engines@),
        decreases models.len() - i,
    {
        let found = find_warnings(db, &models[i], engines);
        out.push(found);
        i += 1;
    }
    out
}

/// Index of the first warning with this id.
pub open spec fn first_with_id(ws: Seq<CompatWarning>, id: Seq<char>) -> Option<int>
    decreases ws.len(),
{
    if ws.len() == 0 {
        None
    } else if ws[0].id@ == id {
        Some(0)
    } else {
        match first_with_id(ws.drop_first(), id) {
            Some(i) => Some(i + 1),
            None => None,
        }
    }
}

/// A user entry replaces the first entry with its id, or is appended.
pub open spec fn merge_one(base: Seq<CompatWarning>, w: CompatWarning) -> Seq<CompatWarning> {
    match first_with_id(base, w.id@) {
        Some(i) => base.update(i, w),
        None => base.push(w),
    }
}

/// The user entries merged into `base` one after the other.
pub open spec fn merge_all(base: Seq<CompatWarning>, users: Seq<CompatWarning>) -> Seq<CompatWarning>
    decreases users.len(),
{
    if users.len() == 0 {
        base
    } else {
        merge_one(merge_all(base, users.drop_last()), users.last())
    }
}

proof fn lemma_first_with_id(ws: Seq<CompatWarning>, id: Seq<char>)
    ensures
        match first_with_id(ws, id) {
            Some(i) => 0 <= i < ws.len() && ws[i].id@ == id
                && forall|j: int| 0 <= j < i ==> (#[trigger] ws[j]).id@ != id,
            None => forall|j: int| 0 <= j < ws.len() ==> (#[trigger] ws[j]).id@ != id,
        },
    decreases ws.len(),
{
    if ws.len() > 0 && ws[0].id@ != id {
        lemma_first_with_id(ws.drop_first(), id);
        assert forall|j: int| 1 <= j < ws.len() implies (#[trigger] ws[j]).id@ == ws.drop_first()[j - 1].id@ by {}
    }
}

/// Index of the first entry of `ws` with the id `id`.
fn position_of_id(ws: &Vec<CompatWarning>, id: &str) -> (r: Option<usize>)
    ensures
        match r {
            Some(p) => first_with_id(ws@, id@) == Some(p as int),
            None => first_with_id(ws@, id@) is None,
        },
{
    proof { lemma_first_with_id(ws@, id@); }
    let mut i: usize = 0;
    while i < ws.len()
        invariant
            i <= ws.len(),
            forall|j: int| 0 <= j < i ==> (#[trigger] ws@[j]).id@ != id@,
            match first_with_id(ws@, id@) {
                Some(k) => 0 <= k < ws@.len() && ws@[k].id@ == id@
                    && forall|j: int| 0 <= j < k ==> (#[trigger] ws@[j]).id@ != id@,
                None => forall|j: int| 0 <= j < ws@.len() ==> (#[trigger] ws@[j]).id@ != id@,
            },
        decreases ws.len() - i,
    {
        if text::str_eq(ws[i].id.as_str(), id) {
            return Some(i);
        }
        i += 1;
    }
    None
}

impl CompatDb {
    /// Merges user entries into the database: each replaces the first entry
    /// with its id, or is appended when the id is new.
    pub fn merge_user_entries(&mut self, users: Vec<CompatWarning>)
        ensures
            final(self).entries@ == merge_all(old(self).entries@, users@),
    {
        let ghost all_users = users@;
        assert(all_users.len() == users.len());
        let ghost base = self.entries@;
        let mut users = users;
        let mut done: usize = 0;
        while users.len() > 0
            invariant
                done + users@.len() == all_users.len(),
                all_users.len() <= usize::MAX,
                users@ == all_users.skip(done as int),
                self.entries@ == merge_all(base, all_users.take(done as int)),
            decreases users.len(),
        {
            let ghost before_users = users@;
            let w = users.remove(0);
            assert(w == before_users[0]);
            assert(before_users[0] == all_users[done as int]);
            assert(all_users.take(done + 1).drop_last() == all_users.take(done as int));
            assert(all_users.take(done + 1).last() == all_users[done as int]);
            assert(merge_all(base, all_users.take(done + 1))
                == merge_one(merge_all(base, all_users.take(done as int)), all_users[done as int]));
            proof { lemma_first_with_id(self.entries@, w.id@); }
            let ghost prev = self.entries@;
            let ghost wv = w;
            match position_of_id(&self.entries, w.id.as_str()) {
                Some(pos) => {
                    self.entries.set(pos, w);
                    assert(self.entries@ == prev.update(pos as int, wv));
                    assert(first_with_id(prev, wv.id@) == Some(pos as int));
                    assert(self.entries@ == merge_one(prev, wv));
                },
                None => {
                    self.entries.push(w);
                    assert(first_with_id(prev, wv.id@) is None);
                    assert(self.entries@ == merge_one(prev, wv));
                },
            }
            assert(self.entries@ == merge_one(prev, wv));
            done += 1;
            assert(users@ == all_users.skip(done as int));
        }
        assert(all_users.take(done as int) == all_users);
    }
}

/// A user entry that no later user entry shares its id with ends up in the
/// merged database, and a bundled entry whose id no user entry has stays
/// where it was.
pub proof fn law_merge_keeps_latest_and_untouched(base: Seq<CompatWarning>, users: Seq<CompatWarning>)
    ensures
        forall|j: int| 0 <= j < users.len()
            && (forall|l: int| j < l < users.len() ==> (#[trigger] users[l]).id@ != users[j].id@)
            ==> merge_all(base, users).contains(#[trigger] users[j]),
        forall|k: int| 0 <= k < base.len()
            && (forall|l: int| 0 <= l < users.len() ==> (#[trigger] users[l]).id@ != base[k].id@)
            ==> k < merge_all(base, users).len() && merge_all(base, users)[k] == #[trigger] base[k],
    decreases users.len(),
{
    if users.len() > 0 {
        let front = users.drop_last();
        let w = users.last();
        let prev = merge_all(base, front);
        law_merge_keeps_latest_and_untouched(base, front);
        lemma_first_with_id(prev, w.id@);
        let merged = merge_all(base, users);
        assert(merged == merge_one(prev, w));
        assert forall|j: int| 0 <= j < users.len()
            && (forall|l: int| j < l < users.len() ==> (#[trigger] users[l]).id@ != users[j].id@)
            implies merged.contains(#[trigger] users[j]) by {
            if j == users.len() - 1 {
                match first_with_id(prev, w.id@) {
                    Some(i) => { assert(merged[i] == w); },
                    None => { assert(merged[merged.len() - 1] == w); },
                }
            } else {
                assert(users[j] == front[j]);
                assert forall|l: int| j < l < front.len() implies (#[trigger] front[l]).id@ != front[j].id@ by {
                    assert(front[l] == users[l]);
                }
                assert(users[users.len() - 1].id@ != users[j].id@);
                assert(prev.contains(front[j]));
                let k = choose|k: int| 0 <= k < prev.len() && prev[k] == front[j];
                match first_with_id(prev, w.id@) {
                    Some(i) => {
                        assert(i != k);
                        assert(merged[k] == users[j]);
                    },
                    None => {
                        assert(merged[k] == users[j]);
                    },
                }
            }
        }
        assert forall|k: int| 0 <= k < base.len()
            && (forall|l: int| 0 <= l < users.len() ==> (#[trigger] users[l]).id@ != base[k].id@)
            implies k < merged.len() && merged[k] == #[trigger] base[k] by {
            assert forall|l: int| 0 <= l < front.len() implies (#[trigger] front[l]).id@ != base[k].id@ by {
                assert(front[l] == users[l]);
            }
            assert(users[users.len() - 1].id@ != base[k].id@);
            match first_with_id(prev, w.id@) {
                Some(i) => { assert(i != k); },
                None => {},
            }
        }
    }
}

/// Each criterion of a warning looks at its own field of the model: with
/// the engine installed and the warning not engine-wide, a warning whose
/// only criterion is an architecture applies exactly when the model's
/// architecture contains it (ignoring case); one whose only criterion is a
/// model type, when the model's type contains it; one whose only criterion
/// is a family, when the model's name starts with it; one whose only
/// criterion is the expert flag, when the model's flag equals it.
pub proof fn law_each_criterion_reads_its_field(w: CompatWarning, m: ModelInfo, es: Seq<EngineInfo>)
    requires
        engine_found(w, es),
        !is_wildcard(w),
    ensures
        w.architecture is Some && w.model_type is None && w.model_family is None && w.is_moe is None
            ==> (warning_applies(w, m, es) <==> seq_contains(str_lower(m.architecture@), str_lower(w.architecture.unwrap()@))),
        w.model_type is Some && w.architecture is None && w.model_family is None && w.is_moe is None
            ==> (warning_applies(w, m, es) <==> seq_contains(str_lower(m.model_type@), str_lower(w.model_type.unwrap()@))),
        w.model_family is Some && w.model_type is None && w.architecture is None && w.is_moe is None
            ==> (warning_applies(w, m, es) <==> seq_starts_with(str_lower(m.name@), str_lower(w.model_family.unwrap()@))),
        w.is_moe is Some && w.model_type is None && w.architecture is None && w.model_family is None
            ==> (warning_applies(w, m, es) <==> m.is_moe == w.is_moe.unwrap()),
{
}

/// A warning with no model-type criterion gives the same answer for two
/// models that differ only in their model type; one with no architecture
/// criterion, for two that differ only in their architecture.
pub proof fn law_unset_criteria_are_ignored(w: CompatWarning, m1: ModelInfo, m2: ModelInfo, es: Seq<EngineInfo>)
    requires
        m1.name@ == m2.name@,
        m1.is_moe == m2.is_moe,
    ensures
        w.model_type is None && m1.architecture@ == m2.architecture@
            ==> warning_applies(w, m1, es) == warning_applies(w, m2, es),
        w.architecture is None && m1.model_type@ == m2.model_type@
            ==> warning_applies(w, m1, es) == warning_applies(w, m2, es),
{
}

} // verus!
