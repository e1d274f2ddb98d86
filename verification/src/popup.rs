//! The model-search popup: case-insensitive prefix search over a list of
//! model presets, the matches sorted by model name and then by reasoning
//! effort from high to low, with a wrap-around selection and a scroll
//! window. The preset list is handed in by the caller; drawing stays
//! outside.

use vstd::prelude::*;
use vstd::relations::sorted_by;
use vstd::multiset::Multiset;
use crate::ops::ReasoningEffort;

verus! {

broadcast use vstd::seq_lib::group_to_multiset_ensures, vstd::multiset::group_multiset_axioms;

/// Rows the popup shows at most.
pub const MAX_POPUP_ROWS: usize = 8;

/// One selectable model preset.
pub struct ModelPreset {
    pub model: Vec<u8>,
    pub effort: ReasoningEffort,
    pub description: Vec<u8>,
}

/// Mathematical form of a preset.
#[verifier::ext_equal]
pub struct ModelPresetS {
    pub model: Seq<u8>,
    pub effort: ReasoningEffort,
    pub description: Seq<u8>,
}

impl View for ModelPreset {
    type V = ModelPresetS;

    open spec fn view(&self) -> ModelPresetS {
        ModelPresetS { model: self.model@, effort: self.effort, description: self.description@ }
    }
}

/// Sort rank of an effort: high first, minimal last.
pub open spec fn effort_rank(e: ReasoningEffort) -> int {
    match e {
        ReasoningEffort::High => 0,
        ReasoningEffort::Medium => 1,
        ReasoningEffort::Low => 2,
        ReasoningEffort::Minimal => 3,
    }
}

/// Lexicographic comparison of byte strings: negative, zero or positive as
/// `a` sorts before, equal to, or after `b`.
pub open spec fn bytes_cmp(a: Seq<u8>, b: Seq<u8>) -> int
    decreases a.len(),
{
    if a.len() == 0 && b.len() == 0 {
        0
    } else if a.len() == 0 {
        -1
    } else if b.len() == 0 {
        1
    } else if a[0] < b[0] {
        -1
    } else if a[0] > b[0] {
        1
    } else {
        bytes_cmp(a.skip(1), b.skip(1))
    }
}

/// The comparison is antisymmetric, and zero exactly on equal strings.
pub proof fn lemma_bytes_cmp_basic(a: Seq<u8>, b: Seq<u8>)
    ensures
        bytes_cmp(a, b) == -bytes_cmp(b, a),
        (bytes_cmp(a, b) == 0) <==> (a == b),
    decreases a.len() + b.len(),
{
    if a.len() == 0 && b.len() == 0 {
        assert(a =~= b);
    } else if a.len() == 0 || b.len() == 0 {
        assert(a != b);
    } else if a[0] == b[0] {
        lemma_bytes_cmp_basic(a.skip(1), b.skip(1));
        if bytes_cmp(a, b) == 0 {
            assert(a.skip(1) == b.skip(1));
            assert(a.skip(1).len() == b.skip(1).len());
            assert forall|i: int| 0 <= i < a.len() implies a[i] == b[i] by {
                if i > 0 {
                    assert(a.skip(1)[i - 1] == b.skip(1)[i - 1]);
                }
            }
            assert(a =~= b);
        }
        if a == b {
            assert(a.skip(1) =~= b.skip(1));
        }
    } else {
        assert(a[0] != b[0]);
        assert(a != b);
    }
}

/// The comparison is transitive.
pub proof fn lemma_bytes_cmp_trans(a: Seq<u8>, b: Seq<u8>, c: Seq<u8>)
    requires
        bytes_cmp(a, b) <= 0,
        bytes_cmp(b, c) <= 0,
    ensures
        bytes_cmp(a, c) <= 0,
        bytes_cmp(a, b) < 0 || bytes_cmp(b, c) < 0 ==> bytes_cmp(a, c) < 0,
    decreases a.len() + b.len() + c.len(),
{
    lemma_bytes_cmp_basic(a, b);
    lemma_bytes_cmp_basic(b, c);
    lemma_bytes_cmp_basic(a, c);
    if a == b || b == c {
    } else if a.len() == 0 {
    } else {
        assert(b.len() > 0);
        if b[0] < c[0] || a[0] < b[0] {
            assert(a[0] <= b[0] && b[0] <= c[0]);
        } else {
            assert(a[0] == b[0] && b[0] == c[0]);
            lemma_bytes_cmp_trans(a.skip(1), b.skip(1), c.skip(1));
        }
    }
}

/// The popup's order as one relation value, for `sorted_by`.
pub open spec fn preset_leq() -> spec_fn(ModelPresetS, ModelPresetS) -> bool {
    |x: ModelPresetS, y: ModelPresetS| preset_le(x, y)
}

/// The popup's order: by model name, ties by effort from high to low.
pub open spec fn preset_le(a: ModelPresetS, b: ModelPresetS) -> bool {
    bytes_cmp(a.model, b.model) < 0 || (bytes_cmp(a.model, b.model) == 0 && effort_rank(a.effort)
        <= effort_rank(b.effort))
}

/// The order is total.
pub proof fn lemma_preset_le_total(a: ModelPresetS, b: ModelPresetS)
    ensures
        preset_le(a, b) || preset_le(b, a),
{
    lemma_bytes_cmp_basic(a.model, b.model);
}

/// The order is transitive.
pub proof fn lemma_preset_le_trans(a: ModelPresetS, b: ModelPresetS, c: ModelPresetS)
    requires
        preset_le(a, b),
        preset_le(b, c),
    ensures
        preset_le(a, c),
{
    lemma_bytes_cmp_basic(a.model, b.model);
    lemma_bytes_cmp_basic(b.model, c.model);
    lemma_bytes_cmp_trans(a.model, b.model, c.model);
}

/// A byte, lowercased where it is an ASCII capital.
pub open spec fn lower_byte(b: u8) -> u8 {
    if 65 <= b <= 90 {
        (b + 32) as u8
    } else {
        b
    }
}

/// Bytes, ASCII-lowercased.
pub open spec fn lower_bytes(s: Seq<u8>) -> Seq<u8> {
    s.map_values(|b: u8| lower_byte(b))
}

/// Whether `q` is a prefix of `s`.
pub open spec fn is_prefix(q: Seq<u8>, s: Seq<u8>) -> bool {
    q.len() <= s.len() && s.take(q.len() as int) == q
}

/// Whether a preset matches a query: its model name starts with the
/// query, both compared ASCII-lowercased.
pub open spec fn preset_matches(p: ModelPresetS, q: Seq<u8>) -> bool {
    is_prefix(lower_bytes(q), lower_bytes(p.model))
}

/// Case-insensitive prefix test of `q` against `s`.
fn matches_prefix(q: &[u8], s: &[u8]) -> (r: bool)
    ensures
        r == is_prefix(lower_bytes(q@), lower_bytes(s@)),
{
    if q.len() > s.len() {
        proof {
            assert(lower_bytes(q@).len() == q@.len());
            assert(lower_bytes(s@).len() == s@.len());
        }
        return false;
    }
    let n = q.len();
    let mut i: usize = 0;
    while i < n
        invariant
            0 <= i <= n,
            n == q@.len() <= s@.len(),
            forall|j: int| 0 <= j < i ==> lower_bytes(q@)[j] == lower_bytes(s@)[j],
        decreases n - i,
    {
        let qb = q[i];
        let sb = s[i];
        let ql: u8 = if 65 <= qb && qb <= 90 {
            qb + 32
        } else {
            qb
        };
        let sl: u8 = if 65 <= sb && sb <= 90 {
            sb + 32
        } else {
            sb
        };
        if ql != sl {
            proof {
                assert(lower_bytes(q@)[i as int] != lower_bytes(s@)[i as int]);
                assert(lower_bytes(s@).take(q@.len() as int)[i as int] == lower_bytes(s@)[i as int]);
            }
            return false;
        }
        i = i + 1;
    }
    proof {
        assert(lower_bytes(s@).take(q@.len() as int) =~= lower_bytes(q@));
    }
    true
}

/// Compares two byte strings.
fn bytes_cmp_exec(a: &[u8], b: &[u8]) -> (r: i8)
    ensures
        r < 0 <==> bytes_cmp(a@, b@) < 0,
        r == 0 <==> bytes_cmp(a@, b@) == 0,
        r > 0 <==> bytes_cmp(a@, b@) > 0,
{
    let an = a.len();
    let bn = b.len();
    let mut i: usize = 0;
    proof {
        assert(a@.skip(0) =~= a@);
        assert(b@.skip(0) =~= b@);
    }
    while i < an && i < bn
        invariant
            0 <= i <= an && i <= bn,
            an == a@.len() && bn == b@.len(),
            bytes_cmp(a@, b@) == bytes_cmp(a@.skip(i as int), b@.skip(i as int)),
        decreases an - i,
    {
        if a[i] < b[i] {
            return -1;
        }
        if a[i] > b[i] {
            return 1;
        }
        proof {
            assert(a@.skip(i as int).skip(1) =~= a@.skip(i as int + 1));
            assert(b@.skip(i as int).skip(1) =~= b@.skip(i as int + 1));
        }
        i = i + 1;
    }
    if an == bn {
        0
    } else if an < bn {
        -1
    } else {
        1
    }
}

/// The popup's order, at run time.
fn preset_le_exec(a: &ModelPreset, b: &ModelPreset) -> (r: bool)
    ensures
        r == preset_le(a@, b@),
{
    let c = bytes_cmp_exec(a.model.as_slice(), b.model.as_slice());
    if c < 0 {
        true
    } else if c == 0 {
        effort_rank_exec(a.effort) <= effort_rank_exec(b.effort)
    } else {
        false
    }
}

/// Sort rank of an effort, at run time.
fn effort_rank_exec(e: ReasoningEffort) -> (r: u8)
    ensures
        r as int == effort_rank(e),
{
    match e {
        ReasoningEffort::High => 0,
        ReasoningEffort::Medium => 1,
        ReasoningEffort::Low => 2,
        ReasoningEffort::Minimal => 3,
    }
}

/// Views of a preset vector.
pub open spec fn presets_view(v: Seq<ModelPreset>) -> Seq<ModelPresetS> {
    v.map_values(|p: ModelPreset| p@)
}

/// Inserting an element anywhere adds exactly it to the multiset.
proof fn lemma_insert_to_multiset(v: Seq<ModelPresetS>, x: ModelPresetS, pos: int)
    requires
        0 <= pos <= v.len(),
    ensures
        v.insert(pos, x).to_multiset() =~= v.to_multiset().insert(x),
{
    let w = v.insert(pos, x);
    assert(w.remove(pos) =~= v);
    assert(w[pos] == x);
    assert(w.remove(pos).to_multiset() =~= w.to_multiset().remove(x));
    assert(w.contains(x));
    assert(w.to_multiset().count(x) > 0);
    assert forall|y: ModelPresetS|
        w.to_multiset().count(y) == #[trigger] v.to_multiset().insert(x).count(y) by {
        if y == x {
            assert(v.to_multiset().count(x) == w.to_multiset().remove(x).count(x));
        } else {
            assert(v.to_multiset().count(y) == w.to_multiset().remove(x).count(y));
        }
    }
}

/// Sorts presets by the popup's order: the result is sorted and holds
/// exactly the given presets.
fn sort_presets(v: Vec<ModelPreset>) -> (r: Vec<ModelPreset>)
    ensures
        sorted_by(presets_view(r@), preset_leq()),
        presets_view(r@).to_multiset() == presets_view(v@).to_multiset(),
        r@.len() == v@.len(),
{
    let ghost goal = presets_view(v@);
    let mut src = v;
    let mut out: Vec<ModelPreset> = Vec::new();
    proof {
        assert(presets_view(out@).to_multiset().add(presets_view(src@).to_multiset())
            =~= goal.to_multiset()) by {
            assert(presets_view(out@) =~= Seq::<ModelPresetS>::empty());
            assert(presets_view(out@).to_multiset() =~= Multiset::<ModelPresetS>::empty());
        }
    }
    loop
        invariant
            sorted_by(presets_view(out@), preset_leq()),
            presets_view(out@).to_multiset().add(presets_view(src@).to_multiset())
                =~= goal.to_multiset(),
            out@.len() + src@.len() == goal.len(),
            goal == presets_view(v@),
        ensures
            sorted_by(presets_view(out@), preset_leq()),
            presets_view(out@).to_multiset() =~= goal.to_multiset(),
            out@.len() == goal.len(),
            goal == presets_view(v@),
        decreases src@.len(),
    {
        if src.len() == 0 {
            proof {
                assert(presets_view(src@) =~= Seq::<ModelPresetS>::empty());
                assert(presets_view(src@).to_multiset() =~= Multiset::<ModelPresetS>::empty());
                assert(presets_view(out@).to_multiset() =~= goal.to_multiset());
            }
            break ;
        }
        let ghost src0 = presets_view(src@);
        let x = src.remove(0);
        proof {
            assert(presets_view(src@) =~= src0.remove(0));
            assert(presets_view(src@).to_multiset() =~= src0.to_multiset().remove(x@)) by {
                assert(src0[0] == x@);
            }
            assert(src0.contains(x@)) by {
                assert(src0[0] == x@);
            }
        }
        // find the first position whose element is not below x
        let n = out.len();
        let mut pos: usize = 0;
        while pos < n && !preset_le_exec(&x, &out[pos])
            invariant
                0 <= pos <= n,
                n == out@.len(),
                forall|j: int| 0 <= j < pos ==> !preset_le(x@, #[trigger] presets_view(out@)[j]),
            decreases n - pos,
        {
            proof {
                assert(presets_view(out@)[pos as int] == out@[pos as int]@);
            }
            pos = pos + 1;
        }
        let ghost outv = presets_view(out@);
        proof {
            assert forall|j: int| 0 <= j < pos implies preset_le(
                #[trigger] outv[j],
                x@,
            ) by {
                lemma_preset_le_total(x@, outv[j]);
            }
        }
        let ghost out_before = presets_view(out@);
        out.insert(pos, x);
        proof {
            lemma_insert_to_multiset(out_before, x@, pos as int);
            let nv = presets_view(out@);
            assert(nv =~= out_before.insert(pos as int, x@));
            assert forall|i: int, j: int| 0 <= i < j < nv.len() implies #[trigger] preset_leq()(
                nv[i],
                nv[j],
            ) by {
                let p = pos as int;
                if i < p && j < p {
                    assert(nv[i] == outv[i] && nv[j] == outv[j]);
                    assert(preset_leq()(outv[i], outv[j]));
                } else if i < p && j == p {
                    assert(nv[i] == outv[i] && nv[j] == x@);
                } else if i < p && j > p {
                    assert(nv[i] == outv[i] && nv[j] == outv[j - 1]);
                    if j - 1 == i {
                        lemma_preset_le_total(x@, outv[i]);
                    } else {
                        assert(preset_leq()(outv[i], outv[j - 1]));
                    }
                } else if i == p && j > p {
                    assert(nv[i] == x@ && nv[j] == outv[j - 1]);
                    assert(p <= j - 1 < outv.len());
                    assert(preset_le(x@, outv[p]));
                    if j - 1 == p {
                    } else {
                        assert(preset_leq()(outv[p], outv[j - 1]));
                        lemma_preset_le_trans(x@, outv[p], outv[j - 1]);
                    }
                } else {
                    assert(i > p);
                    assert(nv[i] == outv[i - 1] && nv[j] == outv[j - 1]);
                    assert(preset_leq()(outv[i - 1], outv[j - 1]));
                }
            }
            assert(sorted_by(nv, preset_leq()));
            // multiset bookkeeping: moving x from src to out
            assert(presets_view(out@).to_multiset().add(presets_view(src@).to_multiset())
                =~= goal.to_multiset()) by {
                assert(presets_view(out@).to_multiset() =~= out_before.to_multiset().insert(x@));
                assert(src0.to_multiset().count(x@) > 0);
            }
        }
    }
    out
}

/// The filter a query induces on presets.
pub open spec fn match_pred(q: Seq<u8>) -> spec_fn(ModelPresetS) -> bool {
    |p: ModelPresetS| preset_matches(p, q)
}

/// Keeps the presets matching a query, in their given order.
fn filter_presets(presets: &Vec<ModelPreset>, query: &[u8]) -> (r: Vec<ModelPreset>)
    ensures
        presets_view(r@) == presets_view(presets@).filter(match_pred(query@)),
{
    let ghost pv = presets_view(presets@);
    let mut out: Vec<ModelPreset> = Vec::new();
    let n = presets.len();
    let mut i: usize = 0;
    proof {
        reveal(Seq::filter);
        assert(pv.take(0) =~= Seq::<ModelPresetS>::empty());
        assert(presets_view(out@) =~= pv.take(0).filter(match_pred(query@)));
    }
    while i < n
        invariant
            0 <= i <= n,
            n == presets@.len(),
            pv == presets_view(presets@),
            presets_view(out@) == pv.take(i as int).filter(match_pred(query@)),
        decreases n - i,
    {
        let keep = matches_prefix(query, presets[i].model.as_slice());
        proof {
            reveal(Seq::filter);
            assert(pv.take(i as int + 1).drop_last() =~= pv.take(i as int));
            assert(pv.take(i as int + 1).last() == pv[i as int]);
            assert(pv[i as int] == presets@[i as int]@);
            assert(match_pred(query@)(pv[i as int]) == preset_matches(
                presets@[i as int]@,
                query@,
            ));
        }
        if keep {
            let ghost before = presets_view(out@);
            let copy = ModelPreset {
                model: vstd::slice::slice_to_vec(presets[i].model.as_slice()),
                effort: presets[i].effort,
                description: vstd::slice::slice_to_vec(presets[i].description.as_slice()),
            };
            proof {
                assert(copy@ == presets@[i as int]@);
            }
            out.push(copy);
            proof {
                assert(presets_view(out@) =~= before.push(pv[i as int]));
            }
        }
        i = i + 1;
        proof {
            assert(presets_view(out@) =~= pv.take(i as int).filter(match_pred(query@)));
        }
    }
    proof {
        assert(pv.take(n as int) =~= pv);
    }
    out
}

/// Wrap-around selection and scroll window of a popup list.
pub struct ScrollState {
    pub selected_idx: Option<usize>,
    pub scroll_top: usize,
}

impl ScrollState {
    /// Nothing selected, window at the top.
    pub fn new() -> (r: ScrollState)
        ensures
            r.selected_idx is None,
            r.scroll_top == 0,
    {
        ScrollState { selected_idx: None, scroll_top: 0 }
    }

    /// Clamps the selection into a list of `len` rows: an out-of-range
    /// selection moves to the last row, or away when the list is empty.
    pub fn clamp_selection(&mut self, len: usize)
        ensures
            final(self).selected_idx == (match old(self).selected_idx {
                Some(i) => if len == 0 {
                    None
                } else if i < len {
                    Some(i)
                } else {
                    Some((len - 1) as usize)
                },
                None => None::<usize>,
            }),
            final(self).scroll_top == old(self).scroll_top,
    {
        match self.selected_idx {
            Some(i) => {
                if len == 0 {
                    self.selected_idx = None;
                } else if i >= len {
                    self.selected_idx = Some(len - 1);
                }
            },
            None => {},
        }
    }

    /// Moves the selection one row up, wrapping to the last row.
    pub fn move_up_wrap(&mut self, len: usize)
        requires
            old(self).selected_idx matches Some(i) ==> i < len,
        ensures
            final(self).selected_idx == (if len == 0 {
                None::<usize>
            } else {
                match old(self).selected_idx {
                    None => Some((len - 1) as usize),
                    Some(i) => if i == 0 {
                        Some((len - 1) as usize)
                    } else {
                        Some((i - 1) as usize)
                    },
                }
            }),
            final(self).scroll_top == old(self).scroll_top,
    {
        if len == 0 {
            self.selected_idx = None;
        } else {
            self.selected_idx = match self.selected_idx {
                None => Some(len - 1),
                Some(i) => if i == 0 {
                    Some(len - 1)
                } else {
                    Some(i - 1)
                },
            };
        }
    }

    /// Moves the selection one row down, wrapping to the first row.
    pub fn move_down_wrap(&mut self, len: usize)
        requires
            old(self).selected_idx matches Some(i) ==> i < len,
        ensures
            final(self).selected_idx == (if len == 0 {
                None::<usize>
            } else {
                match old(self).selected_idx {
                    None => Some(0usize),
                    Some(i) => if i + 1 == len {
                        Some(0usize)
                    } else {
                        Some((i + 1) as usize)
                    },
                }
            }),
            final(self).scroll_top == old(self).scroll_top,
    {
        if len == 0 {
            self.selected_idx = None;
        } else {
            self.selected_idx = match self.selected_idx {
                None => Some(0),
                Some(i) => if i + 1 == len {
                    Some(0)
                } else {
                    Some(i + 1)
                },
            };
        }
    }

    /// Scrolls the window so the selection is visible: the window keeps
    /// its place where the selection already shows, otherwise it moves
    /// just enough.
    pub fn ensure_visible(&mut self, len: usize, visible: usize)
        requires
            old(self).selected_idx matches Some(i) ==> i < len,
        ensures
            final(self).selected_idx == old(self).selected_idx,
            match old(self).selected_idx {
                Some(s) => if visible == 0 {
                    final(self).scroll_top == old(self).scroll_top
                } else if s < old(self).scroll_top {
                    final(self).scroll_top == s
                } else if s >= old(self).scroll_top + visible {
                    final(self).scroll_top == s + 1 - visible
                } else {
                    final(self).scroll_top == old(self).scroll_top
                },
                None => final(self).scroll_top == old(self).scroll_top,
            },
            old(self).selected_idx matches Some(s) ==> (visible > 0 ==> final(self).scroll_top
                <= s < final(self).scroll_top + visible),
    {
        match self.selected_idx {
            Some(s) => {
                if visible == 0 {
                } else if s < self.scroll_top {
                    self.scroll_top = s;
                } else if s - self.scroll_top >= visible {
                    self.scroll_top = s + 1 - visible;
                }
            },
            None => {},
        }
    }
}

/// The model-search popup.
pub struct ModelSearchPopup {
    query: Vec<u8>,
    matches: Vec<ModelPreset>,
    state: ScrollState,
}

impl ModelSearchPopup {
    /// The current query.
    pub closed spec fn query_view(self) -> Seq<u8> {
        self.query@
    }

    /// The current matches, in display order.
    pub closed spec fn matches_seq(self) -> Seq<ModelPreset> {
        self.matches@
    }

    /// The selected row, if any.
    pub closed spec fn selected(self) -> Option<usize> {
        self.state.selected_idx
    }

    /// The first visible row of the scroll window.
    pub closed spec fn scroll_top_view(self) -> usize {
        self.state.scroll_top
    }

    /// The selection points into the matches.
    pub closed spec fn wf(self) -> bool {
        self.state.selected_idx matches Some(i) ==> i < self.matches@.len()
    }

    /// An empty popup: no query, no matches, nothing selected.
    pub fn new() -> (r: ModelSearchPopup)
        ensures
            r.wf(),
            r.query_view() == Seq::<u8>::empty(),
            r.matches_seq() == Seq::<ModelPreset>::empty(),
            r.selected() is None,
    {
        ModelSearchPopup { query: Vec::new(), matches: Vec::new(), state: ScrollState::new() }
    }

    /// Whether a query has any match among the presets: never for the
    /// empty query, else exactly when some preset's model starts with it.
    pub fn has_matches(presets: &Vec<ModelPreset>, query: &[u8]) -> (r: bool)
        ensures
            r == (query@.len() > 0 && exists|i: int|
                0 <= i < presets@.len() && preset_matches(#[trigger] presets@[i]@, query@)),
    {
        if query.len() == 0 {
            return false;
        }
        let n = presets.len();
        let mut i: usize = 0;
        while i < n
            invariant
                0 <= i <= n,
                n == presets@.len(),
                query@.len() > 0,
                forall|j: int| 0 <= j < i ==> !preset_matches(#[trigger] presets@[j]@, query@),
            decreases n - i,
        {
            if matches_prefix(query, presets[i].model.as_slice()) {
                proof {
                    let wi = i as int;
                    assert(0 <= wi < presets@.len() && preset_matches(presets@[wi]@, query@));
                    assert(exists|j: int|
                        0 <= j < presets@.len() && preset_matches(
                            #[trigger] presets@[j]@,
                            query@,
                        ));
                }
                return true;
            }
            i = i + 1;
        }
        false
    }

    /// Sets the query: the matches become the presets whose model starts
    /// with it (case-insensitively), sorted by model name and then by
    /// effort from high to low; a selection is clamped into the new list,
    /// the first row is selected when there was none, and the scroll
    /// window moves to show the selection.
    pub fn set_query(&mut self, presets: &Vec<ModelPreset>, query: &[u8])
        ensures
            final(self).wf(),
            final(self).query_view() == query@,
            sorted_by(presets_view(final(self).matches_seq()), preset_leq()),
            presets_view(final(self).matches_seq()).to_multiset() == presets_view(
                presets@,
            ).filter(match_pred(query@)).to_multiset(),
            final(self).matches_seq().len() == presets_view(presets@).filter(
                match_pred(query@),
            ).len(),
            final(self).selected() == (if final(self).matches_seq().len() == 0 {
                None::<usize>
            } else {
                match old(self).selected() {
                    None => Some(0usize),
                    Some(i) => if i < final(self).matches_seq().len() {
                        Some(i)
                    } else {
                        Some((final(self).matches_seq().len() - 1) as usize)
                    },
                }
            }),
    {
        self.query = vstd::slice::slice_to_vec(query);
        let filtered = filter_presets(presets, query);
        let sorted = sort_presets(filtered);
        self.matches = sorted;
        let len = self.matches.len();
        let old_sel_none = self.state.selected_idx.is_none();
        self.state.clamp_selection(len);
        if old_sel_none && len > 0 {
            self.state.selected_idx = Some(0);
        }
        let visible = if len < MAX_POPUP_ROWS {
            len
        } else {
            MAX_POPUP_ROWS
        };
        self.state.ensure_visible(len, visible);
    }

    /// Moves the selection one row up, wrapping, and keeps it visible.
    pub fn move_up(&mut self)
        requires
            old(self).wf(),
        ensures
            final(self).wf(),
            final(self).matches_seq() == old(self).matches_seq(),
            final(self).query_view() == old(self).query_view(),
            final(self).selected() == (if old(self).matches_seq().len() == 0 {
                None::<usize>
            } else {
                match old(self).selected() {
                    None => Some((old(self).matches_seq().len() - 1) as usize),
                    Some(i) => if i == 0 {
                        Some((old(self).matches_seq().len() - 1) as usize)
                    } else {
                        Some((i - 1) as usize)
                    },
                }
            }),
    {
        let len = self.matches.len();
        self.state.move_up_wrap(len);
        let visible = if len < MAX_POPUP_ROWS {
            len
        } else {
            MAX_POPUP_ROWS
        };
        self.state.ensure_visible(len, visible);
    }

    /// Moves the selection one row down, wrapping, and keeps it visible.
    pub fn move_down(&mut self)
        requires
            old(self).wf(),
        ensures
            final(self).wf(),
            final(self).matches_seq() == old(self).matches_seq(),
            final(self).query_view() == old(self).query_view(),
            final(self).selected() == (if old(self).matches_seq().len() == 0 {
                None::<usize>
            } else {
                match old(self).selected() {
                    None => Some(0usize),
                    Some(i) => if i + 1 == old(self).matches_seq().len() {
                        Some(0usize)
                    } else {
                        Some((i + 1) as usize)
                    },
                }
            }),
    {
        let len = self.matches.len();
        self.state.move_down_wrap(len);
        let visible = if len < MAX_POPUP_ROWS {
            len
        } else {
            MAX_POPUP_ROWS
        };
        self.state.ensure_visible(len, visible);
    }

    /// The selected row's index, for the renderer.
    pub fn selected_index(&self) -> (r: Option<usize>)
        ensures
            r == self.selected(),
    {
        self.state.selected_idx
    }

    /// The first visible row, for the renderer.
    pub fn scroll_top(&self) -> (r: usize)
        ensures
            r == self.scroll_top_view(),
    {
        self.state.scroll_top
    }

    /// The rows to draw: each match's `@model-effort` label and its
    /// description, in display order.
    pub fn rows(&self) -> (r: Vec<(Vec<u8>, Vec<u8>)>)
        ensures
            r@.len() == self.matches_seq().len(),
            forall|i: int|
                0 <= i < r@.len() ==> #[trigger] r@[i].0@ == Self::row_label_spec(
                    self.matches_seq()[i]@,
                ) && r@[i].1@ == self.matches_seq()[i]@.description,
    {
        let mut out: Vec<(Vec<u8>, Vec<u8>)> = Vec::new();
        let n = self.matches.len();
        let mut i: usize = 0;
        while i < n
            invariant
                0 <= i <= n,
                n == self.matches@.len(),
                out@.len() == i,
                forall|j: int|
                    0 <= j < i ==> #[trigger] out@[j].0@ == Self::row_label_spec(
                        self.matches@[j]@,
                    ) && out@[j].1@ == self.matches@[j]@.description,
            decreases n - i,
        {
            let label = row_label(&self.matches[i]);
            let descr = vstd::slice::slice_to_vec(self.matches[i].description.as_slice());
            out.push((label, descr));
            i = i + 1;
        }
        out
    }

    /// The label of one preset: `@model-effort`.
    pub open spec fn row_label_spec(p: ModelPresetS) -> Seq<u8> {
        seq![64u8].add(p.model).add(seq![45u8]).add(effort_name(p.effort))
    }

    /// The display string of the selected match, if one is selected.
    pub fn selected_display_string(&self) -> (r: Option<Vec<u8>>)
        requires
            self.wf(),
        ensures
            match self.selected() {
                Some(i) => r matches Some(s) && s@ == Self::row_label_spec(
                    self.matches_seq()[i as int]@,
                ),
                None => r is None,
            },
    {
        match self.state.selected_idx {
            Some(i) => Some(row_label(&self.matches[i])),
            None => None,
        }
    }

    /// How many rows the popup needs: one per match, at least one, at
    /// most the row bound.
    pub fn calculate_required_height(&self) -> (h: u16)
        ensures
            h == (if self.matches_seq().len() == 0 {
                1int
            } else if self.matches_seq().len() < MAX_POPUP_ROWS as int {
                self.matches_seq().len() as int
            } else {
                MAX_POPUP_ROWS as int
            }),
    {
        let len = self.matches.len();
        if len == 0 {
            1
        } else if len < MAX_POPUP_ROWS {
            len as u16
        } else {
            MAX_POPUP_ROWS as u16
        }
    }
}

/// The wire name of an effort in a row label.
pub open spec fn effort_name(e: ReasoningEffort) -> Seq<u8> {
    match e {
        ReasoningEffort::Minimal => seq![109, 105, 110, 105, 109, 97, 108],
        ReasoningEffort::Low => seq![108, 111, 119],
        ReasoningEffort::Medium => seq![109, 101, 100, 105, 117, 109],
        ReasoningEffort::High => seq![104, 105, 103, 104],
    }
}

/// Builds the `@model-effort` label of one preset.
pub fn row_label(p: &ModelPreset) -> (r: Vec<u8>)
    ensures
        r@ == ModelSearchPopup::row_label_spec(p@),
{
    let mut out: Vec<u8> = Vec::new();
    out.push(64);
    let mut m = vstd::slice::slice_to_vec(p.model.as_slice());
    out.append(&mut m);
    out.push(45);
    let name: Vec<u8> = match p.effort {
        ReasoningEffort::Minimal => vec![109, 105, 110, 105, 109, 97, 108],
        ReasoningEffort::Low => vec![108, 111, 119],
        ReasoningEffort::Medium => vec![109, 101, 100, 105, 117, 109],
        ReasoningEffort::High => vec![104, 105, 103, 104],
    };
    let ghost namev = name@;
    let mut n = name;
    out.append(&mut n);
    proof {
        assert(namev =~= effort_name(p.effort));
        assert(out@ =~= ModelSearchPopup::row_label_spec(p@));
    }
    out
}

} // verus!
