use vstd::prelude::*;
use crate::listing::{card_of, Card, Mod};

verus! {

/// Direction of a sort.
pub enum Order {
    Ascending,
    Descending,
}

/// The remembered sort directive of the listing.
pub enum SortBy {
    Stars(Order),
}

/// Entries whose star count is `v`, in the order in which they occur.
pub open spec fn with_stars(s: Seq<Mod>, v: u32) -> Seq<Mod>
    decreases s.len(),
{
    if s.len() == 0 {
        seq![]
    } else {
        (if s[0].stars == v {
            seq![s[0]]
        } else {
            seq![]
        }) + with_stars(s.drop_first(), v)
    }
}

/// Star counts never decrease along `s`.
pub open spec fn ascending(s: Seq<Mod>) -> bool {
    forall|i: int, j: int| 0 <= i < j < s.len() ==> s[i].stars <= s[j].stars
}

/// Star counts never increase along `s`.
pub open spec fn descending(s: Seq<Mod>) -> bool {
    forall|i: int, j: int| 0 <= i < j < s.len() ==> s[i].stars >= s[j].stars
}

/// Index of the first entry of `s` with at least `k` stars (`s.len()` if none).
pub open spec fn first_at_least(s: Seq<Mod>, k: u32) -> int
    decreases s.len(),
{
    if s.len() == 0 {
        0
    } else if s[0].stars >= k {
        0
    } else {
        1 + first_at_least(s.drop_first(), k)
    }
}

/// `x` placed just before the first entry of `s` with at least as many stars.
pub open spec fn insert_by_stars(s: Seq<Mod>, x: Mod) -> Seq<Mod>
    decreases s.len(),
{
    if s.len() == 0 {
        seq![x]
    } else if s[0].stars >= x.stars {
        seq![x] + s
    } else {
        seq![s[0]] + insert_by_stars(s.drop_first(), x)
    }
}

/// The stable sort of `s` by ascending star count.
pub open spec fn sorted_by_stars(s: Seq<Mod>) -> Seq<Mod>
    decreases s.len(),
{
    if s.len() == 0 {
        s
    } else {
        insert_by_stars(sorted_by_stars(s.drop_first()), s[0])
    }
}

/// `s` read back to front.
pub open spec fn reversed(s: Seq<Mod>) -> Seq<Mod> {
    Seq::new(s.len(), |i: int| s[s.len() - 1 - i])
}

proof fn lemma_first_at_least(s: Seq<Mod>, k: u32)
    ensures
        0 <= first_at_least(s, k) <= s.len(),
        forall|j: int| 0 <= j < first_at_least(s, k) ==> s[j].stars < k,
        first_at_least(s, k) < s.len() ==> s[first_at_least(s, k)].stars >= k,
    decreases s.len(),
{
    if s.len() > 0 && s[0].stars < k {
        lemma_first_at_least(s.drop_first(), k);
        assert forall|j: int| 0 <= j < first_at_least(s, k) implies s[j].stars < k by {
            if j > 0 {
                assert(s[j] == s.drop_first()[j - 1]);
            }
        }
    }
}

proof fn lemma_insert_at(s: Seq<Mod>, x: Mod)
    ensures
        insert_by_stars(s, x) == s.insert(first_at_least(s, x.stars), x),
    decreases s.len(),
{
    if s.len() == 0 {
        assert(seq![x] =~= s.insert(0, x));
    } else if s[0].stars >= x.stars {
        assert(seq![x] + s =~= s.insert(0, x));
    } else {
        lemma_insert_at(s.drop_first(), x);
        lemma_first_at_least(s.drop_first(), x.stars);
        let p = first_at_least(s.drop_first(), x.stars);
        assert(seq![s[0]] + s.drop_first().insert(p, x) =~= s.insert(p + 1, x));
    }
}

proof fn lemma_with_stars_append(a: Seq<Mod>, b: Seq<Mod>, v: u32)
    ensures
        with_stars(a + b, v) == with_stars(a, v) + with_stars(b, v),
    decreases a.len(),
{
    if a.len() == 0 {
        assert(a + b =~= b);
        assert(with_stars(a, v) + with_stars(b, v) =~= with_stars(b, v));
    } else {
        assert((a + b).drop_first() =~= a.drop_first() + b);
        lemma_with_stars_append(a.drop_first(), b, v);
        assert(with_stars(a + b, v) =~= with_stars(a, v) + with_stars(b, v));
    }
}

proof fn lemma_insert_keeps_classes(s: Seq<Mod>, x: Mod, v: u32)
    ensures
        with_stars(insert_by_stars(s, x), v) == with_stars(seq![x], v) + with_stars(s, v),
    decreases s.len(),
{
    lemma_with_stars_append(seq![x], s, v);
    if s.len() > 0 && s[0].stars < x.stars {
        let rest = s.drop_first();
        lemma_insert_keeps_classes(rest, x, v);
        lemma_with_stars_append(seq![s[0]], insert_by_stars(rest, x), v);
        lemma_with_stars_append(seq![s[0]], rest, v);
        assert(seq![s[0]] + rest =~= s);
        assert(seq![x].drop_first() =~= Seq::<Mod>::empty());
        assert(seq![s[0]].drop_first() =~= Seq::<Mod>::empty());
        assert(with_stars(insert_by_stars(s, x), v) =~= with_stars(seq![x], v) + with_stars(s, v));
    }
}

/// Sorting keeps, for each star count, the entries with that count in their
/// relative order from before the sort: the sort is stable and loses or adds
/// nothing.
pub proof fn lemma_sort_stable(s: Seq<Mod>, v: u32)
    ensures
        with_stars(sorted_by_stars(s), v) == with_stars(s, v),
    decreases s.len(),
{
    if s.len() > 0 {
        lemma_sort_stable(s.drop_first(), v);
        lemma_insert_keeps_classes(sorted_by_stars(s.drop_first()), s[0], v);
        lemma_with_stars_append(seq![s[0]], s.drop_first(), v);
        assert(seq![s[0]] + s.drop_first() =~= s);
    }
}

proof fn lemma_insert_ascending(s: Seq<Mod>, x: Mod)
    requires
        ascending(s),
    ensures
        ascending(insert_by_stars(s, x)),
{
    lemma_insert_at(s, x);
    lemma_first_at_least(s, x.stars);
}

/// The sort orders entries by ascending star count.
pub proof fn lemma_sort_ascending(s: Seq<Mod>)
    ensures
        ascending(sorted_by_stars(s)),
    decreases s.len(),
{
    if s.len() > 0 {
        lemma_sort_ascending(s.drop_first());
        lemma_insert_ascending(sorted_by_stars(s.drop_first()), s[0]);
    }
}

/// Sorts `v` stably by ascending star count.
pub fn sort_by_stars(v: &mut Vec<Mod>)
    ensures
        final(v)@ == sorted_by_stars(old(v)@),
{
    let ghost orig = v@;
    let mut out: Vec<Mod> = Vec::new();
    proof {
        assert(orig.subrange(orig.len() as int, orig.len() as int) =~= Seq::<Mod>::empty());
    }
    while v.len() > 0
        invariant
            v@ == orig.subrange(0, v@.len() as int),
            v@.len() <= orig.len(),
            out@ == sorted_by_stars(orig.subrange(v@.len() as int, orig.len() as int)),
            ascending(out@),
        decreases v@.len(),
    {
        let x = v.pop().unwrap();
        let k = v.len();
        let mut p: usize = 0;
        while p < out.len() && out[p].stars < x.stars
            invariant
                p <= out@.len(),
                forall|j: int| 0 <= j < p ==> out@[j].stars < x.stars,
            decreases out@.len() - p,
        {
            p = p + 1;
        }
        proof {
            lemma_first_at_least(out@, x.stars);
            lemma_insert_at(out@, x);
            lemma_insert_ascending(out@, x);
            let f = first_at_least(out@, x.stars);
            if p < f {
                assert(out@[p as int].stars < x.stars);
            }
            if f < p {
                assert(out@[f].stars < x.stars);
            }
            let tail = orig.subrange(k as int, orig.len() as int);
            assert(tail.drop_first() =~= orig.subrange(k + 1, orig.len() as int));
            assert(tail[0] == x);
            assert(v@ =~= orig.subrange(0, k as int));
        }
        out.insert(p, x);
    }
    proof {
        assert(orig.subrange(0, orig.len() as int) =~= orig);
    }
    *v = out;
}

/// Reverses `v` in place.
pub fn reverse_mods(v: &mut Vec<Mod>)
    ensures
        final(v)@ == reversed(old(v)@),
{
    let ghost orig = v@;
    let mut out: Vec<Mod> = Vec::new();
    while v.len() > 0
        invariant
            v@ == orig.subrange(0, v@.len() as int),
            v@.len() <= orig.len(),
            out@ == reversed(orig).subrange(0, orig.len() - v@.len()),
        decreases v@.len(),
    {
        let ghost k = v@.len();
        let x = v.pop().unwrap();
        proof {
            assert(x == orig[k - 1]);
            assert(out@.push(x) =~= reversed(orig).subrange(0, orig.len() - (k - 1)));
            assert(v@ =~= orig.subrange(0, k - 1));
        }
        out.push(x);
    }
    proof {
        assert(reversed(orig).subrange(0, orig.len() as int) =~= reversed(orig));
    }
    *v = out;
}

/// The state of the listing view.
pub struct Model {
    /// The mods, in display order.
    pub data: Vec<Mod>,
    /// The current sort directive; absent until the user first sorts.
    pub sort_state: Option<SortBy>,
    /// The failure of the last data load, shown to the user.
    pub load_error: Option<String>,
}

/// A mathematical picture of a [`Model`].
pub struct ModelState {
    pub data: Seq<Mod>,
    pub sort_state: Option<SortBy>,
    pub load_error: Option<String>,
}

impl View for Model {
    type V = ModelState;

    open spec fn view(&self) -> ModelState {
        ModelState { data: self.data@, sort_state: self.sort_state, load_error: self.load_error }
    }
}

impl Default for Model {
    fn default() -> (r: Self)
        ensures
            r@ == (ModelState { data: Seq::empty(), sort_state: None, load_error: None }),
    {
        Model { data: Vec::new(), sort_state: None, load_error: None }
    }
}

/// The events that drive the listing view.
pub enum Msg {
    /// The listing data arrived, or failed to load with the given reason.
    FetchData(Result<Vec<Mod>, String>),
    /// The user pressed the stars sort button.
    SortStarsToggle,
}

/// The directive is exactly "by stars, ascending".
pub open spec fn is_ascending(s: Option<SortBy>) -> bool {
    s matches Some(SortBy::Stars(Order::Ascending))
}

/// The entries after one press of the sort button.
pub open spec fn toggled_data(data: Seq<Mod>, sort_state: Option<SortBy>) -> Seq<Mod> {
    if is_ascending(sort_state) {
        reversed(sorted_by_stars(data))
    } else {
        sorted_by_stars(data)
    }
}

/// The directive after one press of the sort button.
pub open spec fn toggled_sort(sort_state: Option<SortBy>) -> Option<SortBy> {
    if is_ascending(sort_state) {
        Some(SortBy::Stars(Order::Descending))
    } else {
        Some(SortBy::Stars(Order::Ascending))
    }
}

/// The view state after handling `msg`.
pub open spec fn next_state(s: ModelState, msg: Msg) -> ModelState {
    match msg {
        Msg::FetchData(Ok(v)) => ModelState { data: v@, load_error: None, ..s },
        Msg::FetchData(Err(e)) => ModelState { load_error: Some(e), ..s },
        Msg::SortStarsToggle => ModelState {
            data: toggled_data(s.data, s.sort_state),
            sort_state: toggled_sort(s.sort_state),
            ..s
        },
    }
}

/// Handles one event of the listing view.
pub fn update(msg: Msg, model: &mut Model)
    ensures
        final(model)@ == next_state(old(model)@, msg),
{
    match msg {
        Msg::FetchData(Ok(v)) => {
            model.data = v;
            model.load_error = None;
        },
        Msg::FetchData(Err(e)) => {
            model.load_error = Some(e);
        },
        Msg::SortStarsToggle => {
            sort_by_stars(&mut model.data);
            if let Some(SortBy::Stars(Order::Ascending)) = model.sort_state {
                reverse_mods(&mut model.data);
                model.sort_state = Some(SortBy::Stars(Order::Descending));
            } else {
                model.sort_state = Some(SortBy::Stars(Order::Ascending));
            }
        },
    }
}

/// The state after `n` presses of the sort button.
pub open spec fn toggled_times(s: ModelState, n: nat) -> ModelState
    decreases n,
{
    if n == 0 {
        s
    } else {
        next_state(toggled_times(s, (n - 1) as nat), Msg::SortStarsToggle)
    }
}

/// Unless the directive is already "ascending", one press of the sort button
/// orders the entries by ascending star count.
pub proof fn lemma_toggle_ascending(s: ModelState)
    requires
        !is_ascending(s.sort_state),
    ensures
        ascending(next_state(s, Msg::SortStarsToggle).data),
        next_state(s, Msg::SortStarsToggle).sort_state == Some(SortBy::Stars(Order::Ascending)),
{
    lemma_sort_ascending(s.data);
}

/// Unless the directive is already "ascending", one press of the sort button
/// keeps entries with equal star counts in their relative order.
pub proof fn lemma_toggle_stable(s: ModelState, v: u32)
    requires
        !is_ascending(s.sort_state),
    ensures
        with_stars(next_state(s, Msg::SortStarsToggle).data, v) == with_stars(s.data, v),
{
    lemma_sort_stable(s.data, v);
}

/// From an unset directive, the presses alternate: odd ones leave the entries
/// ascending under "ascending", even ones descending under "descending".
pub proof fn lemma_toggle_cycle(s: ModelState, n: nat)
    requires
        s.sort_state is None,
        n >= 1,
    ensures
        n % 2 == 1 ==> toggled_times(s, n).sort_state == Some(SortBy::Stars(Order::Ascending))
            && ascending(toggled_times(s, n).data),
        n % 2 == 0 ==> toggled_times(s, n).sort_state == Some(SortBy::Stars(Order::Descending))
            && descending(toggled_times(s, n).data),
    decreases n,
{
    let prev = toggled_times(s, (n - 1) as nat);
    lemma_sort_ascending(prev.data);
    if n > 1 {
        lemma_toggle_cycle(s, (n - 1) as nat);
        if n % 2 == 0 {
            let sorted = sorted_by_stars(prev.data);
            assert forall|i: int, j: int|
                0 <= i < j < reversed(sorted).len() implies reversed(sorted)[i].stars
                >= reversed(sorted)[j].stars by {
                assert(reversed(sorted)[i] == sorted[sorted.len() - 1 - i]);
                assert(reversed(sorted)[j] == sorted[sorted.len() - 1 - j]);
            }
        }
    }
}

/// Loading data and never sorting shows the entries in the order received.
pub proof fn lemma_load_keeps_order(s: ModelState, v: Vec<Mod>)
    ensures
        next_state(s, Msg::FetchData(Ok(v))).data == v@,
        next_state(s, Msg::FetchData(Ok(v))).sort_state == s.sort_state,
{
}

/// The cards of the listing, one per entry, in display order.
pub fn view(model: &Model) -> (r: Vec<Card>)
    ensures
        r@.len() == model.data@.len(),
        forall|i: int| 0 <= i < r@.len() ==> r@[i]@ == card_of(model.data@[i]),
{
    let mut r: Vec<Card> = Vec::new();
    let mut i: usize = 0;
    while i < model.data.len()
        invariant
            i <= model.data@.len(),
            r@.len() == i,
            forall|j: int| 0 <= j < i ==> r@[j]@ == card_of(model.data@[j]),
        decreases model.data@.len() - i,
    {
        r.push(model.data[i].listing_item());
        i = i + 1;
    }
    r
}

} // verus!
