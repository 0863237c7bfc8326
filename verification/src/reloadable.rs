//! The template store: named templates, registered from a backing file or
//! from in-memory source, with hot reloading of stale files.
//!
//! Each file-backed template records the modification time its file had when
//! it was last parsed. A reload pass takes one freshly probed time per
//! record — probing the file system is the caller's part — and re-parses
//! exactly the stale templates: those whose probe is newer than the record,
//! whose record holds no time, or whose probe failed (a template whose
//! metadata cannot be read is assumed stale and retried on the next pass,
//! never treated as permanently broken). Names are unique for the whole life
//! of the store; registering a duplicate fails rather than overwrite.

use vstd::prelude::*;

use crate::backend;
use crate::backend::TemplateContext;
use crate::error::ConfigError;
use crate::error::TemplateError;

verus! {

/// One registered template.
#[derive(Debug)]
pub struct TemplateRecord {
    /// The unique template name.
    pub name: String,
    /// The backing file, or nothing for a template registered from source.
    pub path: Option<String>,
    /// The backing file's modification time as last recorded, in whole
    /// seconds of some fixed epoch; nothing when the probe failed or no file
    /// backs the template.
    pub mtime: Option<u64>,
}

/// The mathematical form of one registered template.
pub struct RecordModel {
    /// The unique template name.
    pub name: Seq<char>,
    /// The backing file, when there is one.
    pub path: Option<Seq<char>>,
    /// The recorded modification time, when one is known.
    pub mtime: Option<u64>,
}

/// The mathematical form of a record.
pub open spec fn record_model(r: TemplateRecord) -> RecordModel {
    RecordModel {
        name: r.name@,
        path: match r.path {
            Some(p) => Some(p@),
            None => None,
        },
        mtime: r.mtime,
    }
}

/// No two records share a name.
pub open spec fn distinct_names(s: Seq<RecordModel>) -> bool {
    forall|i: int, j: int| 0 <= i < j < s.len() ==> s[i].name != s[j].name
}

/// Whether some record carries the name.
pub open spec fn contains_name(s: Seq<RecordModel>, n: Seq<char>) -> bool {
    exists|i: int| 0 <= i < s.len() && s[i].name == n
}

/// The position of the first record with the name, or the length when no
/// record has it.
pub open spec fn index_of_name(s: Seq<RecordModel>, n: Seq<char>) -> int
    decreases s.len(),
{
    if s.len() == 0 {
        0
    } else if s[0].name == n {
        0
    } else {
        1 + index_of_name(s.drop_first(), n)
    }
}

/// Whether a record is stale for a probed modification time: it must be
/// file-backed, and then a failed probe, a record without a time, and a
/// probe newer than the record all count as stale.
pub open spec fn stale(rec: RecordModel, probe: Option<u64>) -> bool {
    rec.path is Some && match (rec.mtime, probe) {
        (_, None) => true,
        (None, Some(p)) => true,
        (Some(m), Some(p)) => p > m,
    }
}

/// How many of the first `n` records are stale for their probes.
pub open spec fn count_stale(s: Seq<RecordModel>, probes: Seq<Option<u64>>, n: int) -> int
    decreases n,
{
    if n <= 0 {
        0
    } else {
        count_stale(s, probes, n - 1) + if stale(s[n - 1], probes[n - 1]) {
            1int
        } else {
            0int
        }
    }
}

/// The record after a reload pass: a stale record takes the probed time, any
/// other keeps what it had. Name and path never change.
pub open spec fn reloaded(rec: RecordModel, probe: Option<u64>) -> RecordModel {
    if stale(rec, probe) {
        RecordModel { name: rec.name, path: rec.path, mtime: probe }
    } else {
        rec
    }
}

/// The store after a reload pass that failed at record `f`: records before
/// `f` took their probed times, `f` itself was stale, and records from `f`
/// on are unchanged.
pub open spec fn partial_reload(
    m0: Seq<RecordModel>,
    probes: Seq<Option<u64>>,
    m1: Seq<RecordModel>,
    f: int,
) -> bool {
    &&& 0 <= f < m0.len()
    &&& stale(m0[f], probes[f])
    &&& forall|i: int| 0 <= i < f ==> m1[i] == reloaded(m0[i], probes[i])
    &&& forall|i: int| f <= i < m0.len() ==> m1[i] == m0[i]
}

/// Removing a record and inserting another at the same place is an update.
proof fn lemma_remove_insert_same(s: Seq<TemplateRecord>, i: int, x: TemplateRecord)
    requires
        0 <= i < s.len(),
    ensures
        s.remove(i).insert(i, x) == s.update(i, x),
{
    assert(s.remove(i).insert(i, x) =~= s.update(i, x));
}

/// The position of a name is pinned down by a scan.
proof fn lemma_index_of_name_unique(s: Seq<RecordModel>, n: Seq<char>, m: int)
    requires
        0 <= m <= s.len(),
        forall|j: int| 0 <= j < m ==> s[j].name != n,
        m < s.len() ==> s[m].name == n,
    ensures
        index_of_name(s, n) == m,
        contains_name(s, n) == (m < s.len()),
    decreases s.len(),
{
    if s.len() == 0 {
    } else if s[0].name == n {
        assert(m == 0);
        assert(contains_name(s, n));
    } else {
        assert(m >= 1);
        assert forall|j: int| 0 <= j < m - 1 implies s.drop_first()[j].name != n by {
            assert(s.drop_first()[j] == s[j + 1]);
        }
        lemma_index_of_name_unique(s.drop_first(), n, m - 1);
        if m < s.len() {
            assert(contains_name(s, n));
        } else if contains_name(s, n) {
            let i = choose|i: int| 0 <= i < s.len() && s[i].name == n;
            assert(false);
        }
    }
}

/// A reloadable template store: the engine's compiled template set plus one
/// record per registered template.
#[derive(Debug)]
pub struct ReloadableTera {
    tera: tera::Tera,
    /// The registered templates, in registration order.
    pub files: Vec<TemplateRecord>,
}

impl ReloadableTera {
    /// The registered templates in mathematical form: the record list, in
    /// registration order.
    pub closed spec fn model(self) -> Seq<RecordModel> {
        self.files@.map_values(|r: TemplateRecord| record_model(r))
    }

    /// The store invariant: template names are unique.
    pub open spec fn wf(self) -> bool {
        distinct_names(self.model())
    }

    /// Creates an empty store around a fresh engine.
    pub fn new() -> (r: ReloadableTera)
        ensures
            r.wf(),
            r.model() == Seq::<RecordModel>::empty(),
    {
        let r = ReloadableTera { tera: backend::tera_new(), files: Vec::new() };
        proof {
            assert(r.model() =~= Seq::<RecordModel>::empty());
        }
        r
    }

    /// The position of the name among the records, or the number of records
    /// when the name is absent.
    fn find_name(&self, name: &String) -> (r: usize)
        ensures
            r as int == index_of_name(self.model(), name@),
            contains_name(self.model(), name@) == (r < self.files@.len()),
            r <= self.files@.len(),
    {
        let n = self.files.len();
        let mut i: usize = 0;
        while i < n
            invariant
                n == self.files@.len(),
                i <= n,
                forall|j: int| 0 <= j < i ==> self.model()[j].name != name@,
            decreases n - i,
        {
            if self.files[i].name == *name {
                proof {
                    assert(self.model()[i as int].name == name@);
                    lemma_index_of_name_unique(self.model(), name@, i as int);
                }
                return i;
            }
            proof {
                assert(self.model()[i as int].name == self.files@[i as int].name@);
            }
            i += 1;
        }
        proof {
            lemma_index_of_name_unique(self.model(), name@, n as int);
        }
        n
    }

    /// Registers a template from a file. The caller supplies the file's
    /// probed modification time, to be recorded for later staleness checks;
    /// an unreadable time is tolerated and recorded as unknown, which makes
    /// the template count as always stale. A name already registered is
    /// refused, and nothing else fails registration but the engine's parse.
    pub fn register_template_file(&mut self, name: String, path: String, mtime: Option<u64>) -> (r:
        Result<(), ConfigError>)
        requires
            old(self).wf(),
        ensures
            final(self).wf(),
            contains_name(old(self).model(), name@) == (r matches Err(
                ConfigError::DuplicateTemplateName(n),
            )),
            match r {
                Ok(()) => final(self).model() == old(self).model().push(
                    (RecordModel { name: name@, path: Some(path@), mtime }),
                ),
                Err(ConfigError::DuplicateTemplateName(n)) => n@ == name@ && final(self).model()
                    == old(self).model(),
                Err(ConfigError::Parse(m)) => final(self).model() == old(self).model(),
            },
    {
        let ghost m0 = self.model();
        let idx = self.find_name(&name);
        if idx < self.files.len() {
            return Err(ConfigError::DuplicateTemplateName(name));
        }
        match backend::tera_add_template_file(&mut self.tera, &path, &name) {
            Ok(()) => {
                let ghost nm = name@;
                self.files.push(TemplateRecord { name, path: Some(path), mtime });
                proof {
                    assert(self.model() =~= m0.push(
                        (RecordModel { name: nm, path: Some(path@), mtime }),
                    ));
                    lemma_push_fresh_name_distinct(m0, self.model()[m0.len() as int]);
                }
                Ok(())
            },
            Err(msg) => Err(ConfigError::Parse(msg)),
        }
    }

    /// Registers a template from in-memory source text. Such a template has
    /// no backing file, so a reload pass never touches it. A name already
    /// registered is refused, and nothing else fails registration but the
    /// engine's parse.
    pub fn register_template_source(&mut self, name: String, source: &str) -> (r: Result<
        (),
        ConfigError,
    >)
        requires
            old(self).wf(),
        ensures
            final(self).wf(),
            contains_name(old(self).model(), name@) == (r matches Err(
                ConfigError::DuplicateTemplateName(n),
            )),
            match r {
                Ok(()) => final(self).model() == old(self).model().push(
                    (RecordModel { name: name@, path: None, mtime: None }),
                ),
                Err(ConfigError::DuplicateTemplateName(n)) => n@ == name@ && final(self).model()
                    == old(self).model(),
                Err(ConfigError::Parse(m)) => final(self).model() == old(self).model(),
            },
    {
        let ghost m0 = self.model();
        let idx = self.find_name(&name);
        if idx < self.files.len() {
            return Err(ConfigError::DuplicateTemplateName(name));
        }
        match backend::tera_add_raw_template(&mut self.tera, &name, source) {
            Ok(()) => {
                let ghost nm = name@;
                self.files.push(TemplateRecord { name, path: None, mtime: None });
                proof {
                    assert(self.model() =~= m0.push(
                        (RecordModel { name: nm, path: None, mtime: None }),
                    ));
                    lemma_push_fresh_name_distinct(m0, self.model()[m0.len() as int]);
                }
                Ok(())
            },
            Err(msg) => Err(ConfigError::Parse(msg)),
        }
    }

    /// Unregisters a template by name and returns its record, or nothing
    /// when the name is unknown. Only the record leaves: the compiled
    /// template stays in the engine, it merely stops being tracked for
    /// reloading.
    pub fn unregister_template_file(&mut self, name: &String) -> (r: Option<TemplateRecord>)
        requires
            old(self).wf(),
        ensures
            final(self).wf(),
            match r {
                Some(rec) => {
                    &&& contains_name(old(self).model(), name@)
                    &&& record_model(rec) == old(self).model()[index_of_name(
                        old(self).model(),
                        name@,
                    )]
                    &&& final(self).model() == old(self).model().remove(
                        index_of_name(old(self).model(), name@),
                    )
                },
                None => !contains_name(old(self).model(), name@) && final(self).model() == old(
                    self,
                ).model(),
            },
    {
        let ghost m0 = self.model();
        let idx = self.find_name(name);
        if idx < self.files.len() {
            let rec = self.files.remove(idx);
            proof {
                assert(self.model() =~= m0.remove(idx as int)) by {
                    assert forall|i: int| 0 <= i < self.model().len() implies self.model()[i]
                        == m0.remove(idx as int)[i] by {
                        if i < idx {
                            assert(self.files@[i] == old(self).files@[i]);
                        } else {
                            assert(self.files@[i] == old(self).files@[i + 1]);
                        }
                    }
                }
                assert(record_model(rec) == m0[idx as int]);
                assert forall|i: int, j: int|
                    0 <= i < j < self.model().len() implies self.model()[i].name
                    != self.model()[j].name by {
                    let oi = if i < idx {
                        i
                    } else {
                        i + 1
                    };
                    let oj = if j < idx {
                        j
                    } else {
                        j + 1
                    };
                    assert(self.model()[i] == m0[oi] && self.model()[j] == m0[oj]);
                }
            }
            Some(rec)
        } else {
            None
        }
    }

    /// One reload pass. The caller hands one freshly probed modification
    /// time per record, in record order; every stale file-backed template is
    /// re-parsed from its file and takes the probed time, every other record
    /// is left as it is. On success the number of re-parses comes back. A
    /// parse failure is surfaced at once with the engine's message: records
    /// before the failing one keep their new times, the failing one and
    /// those after it are unchanged — they are retried on the next pass. A
    /// pass over a store with nothing stale re-parses nothing and cannot
    /// fail.
    #[verifier::rlimit(50)]
    pub fn reload_if_needed(&mut self, probes: &Vec<Option<u64>>) -> (r: Result<
        usize,
        TemplateError,
    >)
        requires
            old(self).wf(),
            probes@.len() == old(self).model().len(),
        ensures
            final(self).wf(),
            final(self).model().len() == old(self).model().len(),
            forall|i: int|
                0 <= i < old(self).model().len() ==> final(self).model()[i].name == old(
                    self,
                ).model()[i].name && final(self).model()[i].path == old(self).model()[i].path,
            match r {
                Ok(k) => {
                    &&& k == count_stale(old(self).model(), probes@, old(self).model().len() as int)
                    &&& forall|i: int|
                        0 <= i < old(self).model().len() ==> final(self).model()[i] == reloaded(
                            old(self).model()[i],
                            probes@[i],
                        )
                },
                Err(e) => {
                    &&& e matches TemplateError::Evaluation(m)
                    &&& exists|f: int|
                        partial_reload(old(self).model(), probes@, final(self).model(), f)
                },
            },
            (forall|i: int|
                0 <= i < old(self).model().len() ==> !stale(old(self).model()[i], probes@[i]))
                ==> (r matches Ok(k) && k == 0 && final(self).model() == old(self).model()),
            r is Ok ==> forall|i: int|
                0 <= i < old(self).model().len() && probes@[i] is Some ==> !stale(
                    final(self).model()[i],
                    probes@[i],
                ),
    {
        let ghost m0 = self.model();
        let n = self.files.len();
        let mut count: usize = 0;
        let mut i: usize = 0;
        while i < n
            invariant
                distinct_names(m0),
                probes@.len() == m0.len(),
                m0 == old(self).model(),
                n == m0.len(),
                self.files@.len() == n,
                i <= n,
                count <= i,
                count as int == count_stale(m0, probes@, i as int),
                forall|j: int| i <= j < n ==> self.files@[j] == old(self).files@[j],
                forall|j: int|
                    0 <= j < i ==> record_model(self.files@[j]) == reloaded(m0[j], probes@[j]),
            decreases n - i,
        {
            let ghost files_before = self.files@;
            proof {
                assert(self.files@[i as int] == old(self).files@[i as int]);
                assert(m0[i as int] == record_model(old(self).files@[i as int]));
            }
            let rec_path_some = self.files[i].path.is_some();
            let is_stale: bool = if !rec_path_some {
                false
            } else {
                match (self.files[i].mtime, probes[i]) {
                    (_, Option::None) => true,
                    (Option::None, Option::Some(t)) => true,
                    (Option::Some(m), Option::Some(t)) => t > m,
                }
            };
            proof {
                assert(is_stale == stale(m0[i as int], probes@[i as int]));
            }
            if is_stale {
                let rec = self.files.remove(i);
                let ghost rec_m = record_model(rec);
                proof {
                    assert(rec_m == m0[i as int]);
                }
                let name = rec.name;
                let rec_mtime = rec.mtime;
                let path = match rec.path {
                    Option::Some(p) => p,
                    Option::None => {
                        proof {
                            assert(false);
                        }
                        String::new()
                    },
                };
                match backend::tera_add_template_file(&mut self.tera, &path, &name) {
                    Ok(()) => {
                        let new_rec = TemplateRecord {
                            name,
                            path: Some(path),
                            mtime: probes[i],
                        };
                        proof {
                            assert(record_model(new_rec) == reloaded(
                                m0[i as int],
                                probes@[i as int],
                            ));
                        }
                        self.files.insert(i, new_rec);
                        proof {
                            lemma_remove_insert_same(files_before, i as int, new_rec);
                            assert(self.files@ == files_before.update(i as int, new_rec));
                        }
                        count += 1;
                    },
                    Err(msg) => {
                        let new_rec = TemplateRecord { name, path: Some(path), mtime: rec_mtime };
                        proof {
                            assert(record_model(new_rec) == rec_m);
                        }
                        self.files.insert(i, new_rec);
                        proof {
                            lemma_remove_insert_same(files_before, i as int, new_rec);
                            assert(self.files@ == files_before.update(i as int, new_rec));
                            assert forall|j: int|
                                0 <= j < n implies record_model(self.files@[j]) == (if j < i {
                                reloaded(m0[j], probes@[j])
                            } else {
                                m0[j]
                            }) by {
                                if j == i {
                                    assert(record_model(self.files@[j]) == rec_m);
                                } else {
                                    assert(self.files@[j] == files_before[j]);
                                    if j > i {
                                        assert(files_before[j] == old(self).files@[j]);
                                    }
                                }
                            }
                            assert forall|j: int|
                                0 <= j < n implies self.model()[j] == record_model(
                                self.files@[j],
                            ) by {}
                            assert(self.model().len() == n);
                            assert forall|j: int|
                                0 <= j < n implies (self.model()[j].name == m0[j].name
                                && self.model()[j].path == m0[j].path) by {}
                            lemma_distinct_names_same_names(m0, self.model());
                            assert(partial_reload(m0, probes@, self.model(), i as int));
                        }
                        return Err(TemplateError::Evaluation(msg));
                    },
                }
            }
            i += 1;
        }
        proof {
            assert forall|j: int| 0 <= j < n implies self.model()[j] == reloaded(
                m0[j],
                probes@[j],
            ) by {
                assert(self.model()[j] == record_model(self.files@[j]));
            }
            assert(self.model().len() == n);
            assert forall|j: int|
                0 <= j < n implies (self.model()[j].name == m0[j].name && self.model()[j].path
                == m0[j].path) by {}
            lemma_distinct_names_same_names(m0, self.model());
            if forall|j: int| 0 <= j < n ==> !stale(m0[j], probes@[j]) {
                lemma_reload_idempotent(m0, probes@, n as int);
                assert(self.model() =~= m0);
            }
            assert forall|j: int|
                0 <= j < n && probes@[j] is Some implies !stale(self.model()[j], probes@[j]) by {
                assert(self.model()[j] == reloaded(m0[j], probes@[j]));
            }
        }
        Ok(count)
    }

    /// Renders the named template under the context, through the engine. A
    /// missing name is reported apart from an evaluation failure; what a
    /// successful render contains is the engine's affair.
    pub fn render(&self, name: &String, context: &TemplateContext) -> (r: Result<
        String,
        TemplateError,
    >)
        ensures
            r matches Err(TemplateError::NotFound(n)) ==> n@ == name@,
            !(r matches Err(TemplateError::Minify(m))),
    {
        backend::tera_render(&self.tera, name, context.as_tera())
    }
}

impl Default for ReloadableTera {
    /// The default store is empty.
    fn default() -> (r: Self)
        ensures
            r.wf(),
            r.model() == Seq::<RecordModel>::empty(),
    {
        ReloadableTera::new()
    }
}

/// Distinct names carry over to records with the same names.
proof fn lemma_distinct_names_same_names(s1: Seq<RecordModel>, s2: Seq<RecordModel>)
    requires
        s1.len() == s2.len(),
        distinct_names(s1),
        forall|i: int| 0 <= i < s1.len() ==> s2[i].name == s1[i].name,
    ensures
        distinct_names(s2),
{
    assert forall|i: int, j: int| 0 <= i < j < s2.len() implies s2[i].name != s2[j].name by {
        assert(s2[i].name == s1[i].name && s2[j].name == s1[j].name);
    }
}

/// Appending a fresh name keeps the names distinct.
proof fn lemma_push_fresh_name_distinct(s: Seq<RecordModel>, e: RecordModel)
    requires
        distinct_names(s),
        !contains_name(s, e.name),
    ensures
        distinct_names(s.push(e)),
{
    let s2 = s.push(e);
    assert forall|i: int, j: int| 0 <= i < j < s2.len() implies s2[i].name != s2[j].name by {
        if j < s2.len() - 1 {
            assert(s2[i] == s[i] && s2[j] == s[j]);
        } else {
            assert(s2[i] == s[i]);
            assert(s[i].name != e.name);
        }
    }
}

/// Idempotent reload: once nothing is stale for the probes at hand — which
/// is what a successful pass with readable probes leaves behind — a further
/// pass with the same probes re-parses nothing.
pub proof fn lemma_reload_idempotent(s: Seq<RecordModel>, probes: Seq<Option<u64>>, n: int)
    requires
        n <= s.len(),
        probes.len() == s.len(),
        forall|i: int| 0 <= i < s.len() ==> !stale(s[i], probes[i]),
    ensures
        count_stale(s, probes, n) == 0,
    decreases n,
{
    if n > 0 {
        lemma_reload_idempotent(s, probes, n - 1);
    }
}

} // verus!
