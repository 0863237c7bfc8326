//! The caller's precondition: the validators it last observed, parsed from an
//! `If-None-Match`-style header value.
//!
//! The header value is a comma-separated list of candidates. Each candidate
//! is trimmed of surrounding spaces and tabs; an empty candidate is ignored;
//! the single character `*` is a wildcard that matches every tag; otherwise
//! an optional `W/` prefix marks the candidate weak, and surrounding double
//! quotes, when both are present, are stripped. Whatever remains is the
//! candidate's opaque value. Matching is weak throughout: a candidate matches
//! a tag exactly when their values agree character for character.

use vstd::prelude::*;
use vstd::string::StrSliceExecFns;

use crate::etag::EntityTag;

verus! {

/// The mathematical form of one parsed candidate.
pub struct TagModel {
    /// Whether the candidate carried the `W/` prefix.
    pub weak: bool,
    /// The candidate's opaque value.
    pub value: Seq<char>,
}

/// The mathematical form of a parsed precondition.
pub struct PrecondModel {
    /// Whether some candidate was the wildcard `*`.
    pub wildcard: bool,
    /// The remaining candidates, in the order they were written.
    pub tags: Seq<TagModel>,
}

/// A precondition matches a tag value when it holds the wildcard or some
/// candidate carries exactly that value.
pub open spec fn precond_matches(p: PrecondModel, v: Seq<char>) -> bool {
    p.wildcard || exists|i: int| 0 <= i < p.tags.len() && p.tags[i].value == v
}

/// A whitespace character for header trimming purposes.
pub open spec fn is_ws(c: char) -> bool {
    c == ' ' || c == '\t'
}

/// The sequence without its leading whitespace.
pub open spec fn trim_start(s: Seq<char>) -> Seq<char>
    decreases s.len(),
{
    if s.len() > 0 && is_ws(s[0]) {
        trim_start(s.drop_first())
    } else {
        s
    }
}

/// The sequence without its trailing whitespace.
pub open spec fn trim_end(s: Seq<char>) -> Seq<char>
    decreases s.len(),
{
    if s.len() > 0 && is_ws(s.last()) {
        trim_end(s.drop_last())
    } else {
        s
    }
}

/// The sequence without leading or trailing whitespace.
pub open spec fn trim(s: Seq<char>) -> Seq<char> {
    trim_end(trim_start(s))
}

/// What one comma-separated candidate contributes.
pub enum SegModel {
    /// Nothing but whitespace: contributes nothing.
    Empty,
    /// The wildcard `*`.
    Wildcard,
    /// An ordinary candidate.
    Tag(TagModel),
}

/// The reading of one candidate, after trimming: empty, the wildcard, or a
/// value with an optional `W/` prefix and optional surrounding quotes.
pub open spec fn segment_model(s: Seq<char>) -> SegModel {
    let t = trim(s);
    if t.len() == 0 {
        SegModel::Empty
    } else if t == seq!['*'] {
        SegModel::Wildcard
    } else {
        let weak = t.len() >= 2 && t[0] == 'W' && t[1] == '/';
        let u = if weak {
            t.skip(2)
        } else {
            t
        };
        let v = if u.len() >= 2 && u[0] == '"' && u.last() == '"' {
            u.subrange(1, u.len() - 1)
        } else {
            u
        };
        SegModel::Tag(TagModel { weak, value: v })
    }
}

/// The empty precondition: no wildcard and no candidates.
pub open spec fn empty_model() -> PrecondModel {
    PrecondModel { wildcard: false, tags: Seq::empty() }
}

/// Folds one candidate into the precondition parsed from what follows it.
pub open spec fn combine(seg: SegModel, rest: PrecondModel) -> PrecondModel {
    match seg {
        SegModel::Empty => rest,
        SegModel::Wildcard => PrecondModel { wildcard: true, tags: rest.tags },
        SegModel::Tag(t) => PrecondModel { wildcard: rest.wildcard, tags: seq![t] + rest.tags },
    }
}

/// The index of the first comma, or the length when there is none.
pub open spec fn first_comma_index(s: Seq<char>) -> int
    decreases s.len(),
{
    if s.len() == 0 {
        0
    } else if s[0] == ',' {
        0
    } else {
        1 + first_comma_index(s.drop_first())
    }
}

/// The reading of a whole header value: the candidate before the first comma,
/// folded into the reading of what follows that comma.
pub open spec fn parse_model(s: Seq<char>) -> PrecondModel
    decreases s.len(),
{
    let i = first_comma_index(s);
    if i == s.len() {
        combine(segment_model(s), empty_model())
    } else if 0 <= i < s.len() {
        combine(segment_model(s.take(i)), parse_model(s.skip(i + 1)))
    } else {
        empty_model()
    }
}

/// The first comma is pinned down by what the scan saw: no comma before `m`,
/// and either the end of the sequence or a comma at `m`.
proof fn lemma_first_comma_index_unique(s: Seq<char>, m: int)
    requires
        0 <= m <= s.len(),
        forall|j: int| 0 <= j < m ==> s[j] != ',',
        m < s.len() ==> s[m] == ',',
    ensures
        first_comma_index(s) == m,
    decreases s.len(),
{
    if s.len() > 0 && s[0] != ',' {
        assert(m >= 1);
        lemma_first_comma_index_unique(s.drop_first(), m - 1);
    }
}

proof fn lemma_trim_start_skip(s: Seq<char>, a: int)
    requires
        0 <= a <= s.len(),
        forall|j: int| 0 <= j < a ==> is_ws(s[j]),
        a < s.len() ==> !is_ws(s[a]),
    ensures
        trim_start(s) == s.skip(a),
    decreases a,
{
    if a == 0 {
        if s.len() > 0 {
            assert(!is_ws(s[0]));
        }
        assert(s.skip(0) =~= s);
    } else {
        assert(is_ws(s[0]));
        lemma_trim_start_skip(s.drop_first(), a - 1);
        assert(s.drop_first().skip(a - 1) =~= s.skip(a));
    }
}

proof fn lemma_trim_end_take(s: Seq<char>, b: int)
    requires
        0 <= b <= s.len(),
        forall|j: int| b <= j < s.len() ==> is_ws(s[j]),
        b > 0 ==> !is_ws(s[b - 1]),
    ensures
        trim_end(s) == s.take(b),
    decreases s.len(),
{
    if b == s.len() {
        if s.len() > 0 {
            assert(!is_ws(s.last()));
        }
        assert(s.take(b) =~= s);
    } else {
        assert(is_ws(s.last()));
        lemma_trim_end_take(s.drop_last(), b);
        assert(s.drop_last().take(b) =~= s.take(b));
    }
}

/// Trimming is pinned down by the scan: whitespace up to `a`, whitespace from
/// `b` on, and non-whitespace at the inner edges.
proof fn lemma_trim_subrange(s: Seq<char>, a: int, b: int)
    requires
        0 <= a <= b <= s.len(),
        forall|j: int| 0 <= j < a ==> is_ws(s[j]),
        forall|j: int| b <= j < s.len() ==> is_ws(s[j]),
        a < b ==> !is_ws(s[a]),
        a < b ==> !is_ws(s[b - 1]),
    ensures
        trim(s) == s.subrange(a, b),
    decreases s.len(),
{
    if a == b {
        // Everything is whitespace: both trims erase the sequence.
        lemma_trim_start_skip(s, s.len() as int);
        assert(trim_start(s) =~= Seq::<char>::empty());
        assert(trim_end(Seq::<char>::empty()) =~= Seq::<char>::empty());
        assert(s.subrange(a, b) =~= Seq::<char>::empty());
    } else {
        lemma_trim_start_skip(s, a);
        let u = s.skip(a);
        lemma_trim_end_take(u, b - a);
        assert(u.take(b - a) =~= s.subrange(a, b));
    }
}

/// An entity-tag precondition: zero or more candidate validators, possibly a
/// wildcard, parsed from an `If-None-Match`-style header value.
#[derive(Debug)]
pub struct EtagIfNoneMatch {
    /// Whether some candidate was the wildcard `*`.
    pub wildcard: bool,
    /// The candidates, in the order they were written. The weakness flag of a
    /// candidate is kept but plays no role in matching.
    pub etags: Vec<EntityTag>,
}

impl EtagIfNoneMatch {
    /// The mathematical form of this precondition.
    pub open spec fn model(self) -> PrecondModel {
        PrecondModel {
            wildcard: self.wildcard,
            tags: self.etags@.map_values(|t: EntityTag| TagModel { weak: t.weak, value: t.tag@ }),
        }
    }

    /// Whether this precondition matches the given tag, weakly: the wildcard
    /// matches everything, and a candidate matches when the values agree.
    pub open spec fn spec_weak_match(self, t: EntityTag) -> bool {
        precond_matches(self.model(), t.tag@)
    }

    /// The precondition of a request that carried no validator at all: it
    /// matches nothing.
    pub fn none() -> (r: EtagIfNoneMatch)
        ensures
            r.model() == empty_model(),
            !r.wildcard,
            r.etags@.len() == 0,
    {
        let r = EtagIfNoneMatch { wildcard: false, etags: Vec::new() };
        proof {
            assert(r.model().tags =~= empty_model().tags);
        }
        r
    }

    /// Weak comparison of this precondition against one tag.
    pub fn weak_eq(&self, etag: &EntityTag) -> (r: bool)
        ensures
            r == self.spec_weak_match(*etag),
    {
        if self.wildcard {
            return true;
        }
        let n = self.etags.len();
        let mut i: usize = 0;
        while i < n
            invariant
                n == self.etags@.len(),
                i <= n,
                forall|j: int| 0 <= j < i ==> self.etags@[j].tag@ != etag.tag@,
            decreases n - i,
        {
            if self.etags[i].weak_eq(etag) {
                assert(self.model().tags[i as int].value == etag.tag@);
                return true;
            }
            i += 1;
        }
        assert forall|j: int| 0 <= j < self.model().tags.len() implies self.model().tags[j].value
            != etag.tag@ by {
            assert(self.model().tags[j].value == self.etags@[j].tag@);
        }
        false
    }

    /// Parses a header value into a precondition.
    #[verifier::rlimit(50)]
    pub fn from_header_value(s: &str) -> (r: EtagIfNoneMatch)
        ensures
            r.model() == parse_model(s@),
    {
        let n = s.unicode_len();
        let mut wildcard = false;
        let mut etags: Vec<EntityTag> = Vec::new();
        let mut pos: usize = 0;
        let mut done = false;
        proof {
            assert(s@.skip(0) =~= s@);
            let init = PrecondModel {
                wildcard: false,
                tags: etags@.map_values(|t: EntityTag| TagModel { weak: t.weak, value: t.tag@ }),
            };
            assert(init.tags =~= Seq::<TagModel>::empty());
            assert(init.tags + parse_model(s@).tags =~= parse_model(s@).tags);
        }
        while !done
            invariant
                n == s@.len(),
                pos <= n,
                done ==> pos == n,
                parse_model(s@) == fold_tail(
                    PrecondModel {
                        wildcard,
                        tags: etags@.map_values(
                            |t: EntityTag| TagModel { weak: t.weak, value: t.tag@ },
                        ),
                    },
                    if done {
                        empty_model()
                    } else {
                        parse_model(s@.skip(pos as int))
                    },
                ),
            decreases n - pos + (if done { 0int } else { 1int }),
        {
            let ghost acc = PrecondModel {
                wildcard,
                tags: etags@.map_values(|t: EntityTag| TagModel { weak: t.weak, value: t.tag@ }),
            };
            let ghost rem = s@.skip(pos as int);

            // Find the end of the current candidate: the next comma or the end.
            let mut j: usize = pos;
            while j < n && !(s.get_char(j) == ',')
                invariant
                    n == s@.len(),
                    pos <= j <= n,
                    forall|k: int| pos <= k < j ==> s@[k] != ',',
                decreases n - j,
            {
                j += 1;
            }
            proof {
                assert forall|k: int| 0 <= k < j - pos implies rem[k] != ',' by {
                    assert(rem[k] == s@[pos + k]);
                }
                if j < n {
                    assert(rem[j - pos] == s@[j as int]);
                }
                lemma_first_comma_index_unique(rem, j - pos);
            }

            // Trim the candidate.
            let mut a: usize = pos;
            while a < j && (s.get_char(a) == ' ' || s.get_char(a) == '\t')
                invariant
                    n == s@.len(),
                    pos <= a <= j <= n,
                    forall|k: int| pos <= k < a ==> is_ws(s@[k]),
                decreases j - a,
            {
                a += 1;
            }
            let mut b: usize = j;
            while b > a && (s.get_char(b - 1) == ' ' || s.get_char(b - 1) == '\t')
                invariant
                    n == s@.len(),
                    a <= b <= j <= n,
                    forall|k: int| b <= k < j ==> is_ws(s@[k]),
                decreases b,
            {
                b -= 1;
            }
            let ghost seg = s@.subrange(pos as int, j as int);
            proof {
                assert forall|k: int| 0 <= k < a - pos implies is_ws(seg[k]) by {
                    assert(seg[k] == s@[pos + k]);
                }
                assert forall|k: int| b - pos <= k < seg.len() implies is_ws(seg[k]) by {
                    assert(seg[k] == s@[pos + k]);
                }
                if a < b {
                    assert(seg[a - pos] == s@[a as int]);
                    assert(seg[b - pos - 1] == s@[b - 1]);
                }
                lemma_trim_subrange(seg, a - pos, b - pos);
                assert(trim(seg) =~= s@.subrange(a as int, b as int));
            }
            let ghost t = s@.subrange(a as int, b as int);

            // Classify the trimmed candidate.
            if a == b {
                // Only whitespace: contributes nothing.
                proof {
                    assert(t.len() == 0);
                    assert(segment_model(seg) == SegModel::Empty);
                }
            } else if b - a == 1 && s.get_char(a) == '*' {
                proof {
                    assert(t[0] == s@[a as int]);
                    assert(t =~= seq!['*']);
                    assert(segment_model(seg) == SegModel::Wildcard);
                }
                wildcard = true;
            } else {
                let weak = b - a >= 2 && s.get_char(a) == 'W' && s.get_char(a + 1) == '/';
                let va: usize = if weak {
                    a + 2
                } else {
                    a
                };
                proof {
                    assert(t[0] == s@[a as int]);
                    if t.len() >= 2 {
                        assert(t[1] == s@[a + 1]);
                    }
                    assert(weak == (t.len() >= 2 && t[0] == 'W' && t[1] == '/'));
                    if weak {
                        assert(t.skip(2) =~= s@.subrange(va as int, b as int));
                    }
                }
                let ghost u = s@.subrange(va as int, b as int);
                let quoted = b - va >= 2 && s.get_char(va) == '"' && s.get_char(b - 1) == '"';
                let (ca, cb): (usize, usize) = if quoted {
                    (va + 1, b - 1)
                } else {
                    (va, b)
                };
                proof {
                    if u.len() >= 1 {
                        assert(u[0] == s@[va as int]);
                        assert(u.last() == s@[b - 1]);
                    }
                    assert(quoted == (u.len() >= 2 && u[0] == '"' && u.last() == '"'));
                    if quoted {
                        assert(u.subrange(1, u.len() - 1) =~= s@.subrange(ca as int, cb as int));
                    }
                    assert(segment_model(seg) == SegModel::Tag(
                        TagModel { weak, value: s@.subrange(ca as int, cb as int) },
                    ));
                }
                let value = s.substring_char(ca, cb).to_owned();
                let tag = EntityTag { weak, tag: value };
                etags.push(tag);
                proof {
                    let new_tags = etags@.map_values(
                        |t: EntityTag| TagModel { weak: t.weak, value: t.tag@ },
                    );
                    assert(new_tags =~= acc.tags + seq![
                        TagModel { weak, value: s@.subrange(ca as int, cb as int) },
                    ]);
                }
            }

            // Step past the comma, or stop at the end.
            if j < n {
                proof {
                    assert(rem.take(j as int - pos as int) =~= seg);
                    assert(rem.skip(j as int - pos as int + 1) =~= s@.skip(j as int + 1));
                    lemma_fold_tail_step(acc, segment_model(seg), parse_model(s@.skip(j as int + 1)));
                }
                pos = j + 1;
            } else {
                proof {
                    assert(rem =~= seg);
                    lemma_fold_tail_step(acc, segment_model(seg), empty_model());
                }
                pos = n;
                done = true;
            }
        }
        let r = EtagIfNoneMatch { wildcard, etags };
        proof {
            lemma_fold_tail_empty(r.model());
        }
        r
    }
}

impl Default for EtagIfNoneMatch {
    /// The default precondition carries no validator and matches nothing.
    fn default() -> (r: Self)
        ensures
            r.model() == empty_model(),
    {
        EtagIfNoneMatch::none()
    }
}

/// What the whole parse yields once the candidates in `acc` have been taken
/// off the front: `acc`'s wildcard and candidates, followed by the rest.
pub open spec fn fold_tail(acc: PrecondModel, rest: PrecondModel) -> PrecondModel {
    PrecondModel { wildcard: acc.wildcard || rest.wildcard, tags: acc.tags + rest.tags }
}

proof fn lemma_fold_tail_empty(acc: PrecondModel)
    ensures
        fold_tail(acc, empty_model()) == acc,
{
    assert(acc.tags + empty_model().tags =~= acc.tags);
}

/// Folding one more candidate into the accumulator commutes with the
/// right-recursive reading of the remainder.
proof fn lemma_fold_tail_step(acc: PrecondModel, seg: SegModel, rest: PrecondModel)
    ensures
        fold_tail(acc, combine(seg, rest)) == fold_tail(
            match seg {
                SegModel::Empty => acc,
                SegModel::Wildcard => PrecondModel { wildcard: true, tags: acc.tags },
                SegModel::Tag(t) => PrecondModel {
                    wildcard: acc.wildcard,
                    tags: acc.tags + seq![t],
                },
            },
            rest,
        ),
{
    match seg {
        SegModel::Empty => {},
        SegModel::Wildcard => {},
        SegModel::Tag(t) => {
            assert(acc.tags + (seq![t] + rest.tags) =~= (acc.tags + seq![t]) + rest.tags);
        },
    }
}

} // verus!
