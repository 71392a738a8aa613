use vstd::prelude::*;
use crate::LocaleError;
use crate::LoadFailure;
use crate::locale_controller::LocaleController;
use crate::locale_controller::LocaleText;
use crate::locale_controller::TextEntry;
use crate::locale_controller::csv_header;
use crate::locale_controller::spec_available_locales;
use crate::locale_controller::spec_entries_view;
use crate::locale_controller::spec_tables_view;
use crate::locale_controller::spec_texts_load_from;
use crate::text::spec_names_view;
use crate::text::str_eq;

verus! {

/// An immutable, fully formed view of loaded locale data, published to
/// the presentation layer as one value; consumers never see a partial
/// update.
pub struct LocaleSnapshot {
    pub selected_locale: String,
    pub selected_category: String,
    /// Entries of every category for the selected locale.
    pub all_texts: Vec<LocaleText>,
    /// The subsequence of `all_texts` whose category is the selected one.
    pub category_texts: Vec<LocaleText>,
    pub available_locales: Vec<String>,
    pub available_categories: Vec<String>,
}

/// The locale a load works with: the requested one, else the first
/// available, else the empty identifier.
pub open spec fn spec_select_locale(requested: Option<Seq<char>>, locales: Seq<Seq<char>>) -> Seq<
    char,
> {
    match requested {
        Some(l) => l,
        None => if locales.len() > 0 {
            locales[0]
        } else {
            Seq::empty()
        },
    }
}

pub open spec fn spec_opt_str_view(o: Option<String>) -> Option<Seq<char>> {
    match o {
        Some(s) => Some(s@),
        None => None,
    }
}

pub fn select_locale(requested: &Option<String>, locales: &Vec<String>) -> (r: String)
    ensures
        r@ == spec_select_locale(spec_opt_str_view(*requested), spec_names_view(locales@)),
{
    match requested {
        Some(s) => s.clone(),
        None => if locales.len() > 0 {
            locales[0].clone()
        } else {
            String::new()
        },
    }
}

/// The entries of `ts` whose category is `category`, in order, from
/// position `i` on.
pub open spec fn spec_filter_category(ts: Seq<TextEntry>, category: Seq<char>, i: int) -> Seq<
    TextEntry,
>
    decreases ts.len() - i
        when 0 <= i <= ts.len()
{
    if i >= ts.len() {
        Seq::empty()
    } else if ts[i].category == category {
        seq![ts[i]] + spec_filter_category(ts, category, i + 1)
    } else {
        spec_filter_category(ts, category, i + 1)
    }
}

/// A field-for-field copy whose view equals the copied entry's.
fn clone_entry(e: &LocaleText) -> (r: LocaleText)
    ensures
        r@ == e@,
{
    LocaleText {
        lang: e.lang.clone(),
        tag: e.tag.clone(),
        text: e.text.clone(),
        category: e.category.clone(),
        max_chars: e.max_chars,
    }
}

/// The subsequence of `texts` belonging to `category`, in order.
pub fn filter_by_category(texts: &Vec<LocaleText>, category: &String) -> (r: Vec<LocaleText>)
    ensures
        spec_entries_view(r@) == spec_filter_category(spec_entries_view(texts@), category@, 0),
{
    let ghost tv = spec_entries_view(texts@);
    let mut out: Vec<LocaleText> = Vec::new();
    let mut i: usize = 0;
    proof {
        assert(spec_entries_view(out@) + spec_filter_category(tv, category@, 0)
            =~= spec_filter_category(tv, category@, 0));
    }
    while i < texts.len()
        invariant
            i <= texts@.len(),
            tv == spec_entries_view(texts@),
            spec_entries_view(out@) + spec_filter_category(tv, category@, i as int)
                == spec_filter_category(tv, category@, 0),
        decreases texts@.len() - i,
    {
        if str_eq(texts[i].category.as_str(), category.as_str()) {
            let ghost o0 = spec_entries_view(out@);
            let e = clone_entry(&texts[i]);
            let ghost ev = e@;
            out.push(e);
            proof {
                assert(spec_entries_view(out@) =~= o0.push(ev));
                assert(tv[i as int].category == category@);
                assert(spec_entries_view(out@) + spec_filter_category(tv, category@, i + 1) =~= o0
                    + (seq![tv[i as int]] + spec_filter_category(tv, category@, i + 1)));
            }
        }
        i = i + 1;
    }
    proof {
        assert(spec_entries_view(out@) + spec_filter_category(tv, category@, texts@.len() as int)
            =~= spec_entries_view(out@));
    }
    out
}

/// One whole load cycle's computation, from the table bytes already read:
/// the locale list from the menu table, the effective locale, every
/// category's entries, and the category-filtered view. This is what a
/// background worker computes; it touches no shared state.
pub fn build_snapshot(
    controller: &LocaleController,
    requested_locale: &Option<String>,
    selected_category: &String,
    menu_data: &Vec<u8>,
    tables: &Vec<(String, Vec<u8>)>,
) -> (r: Result<LocaleSnapshot, LocaleError>)
    ensures
        match r {
            Ok(s) => {
                let locs = spec_available_locales(csv_header(menu_data@));
                &&& locs is Ok
                &&& spec_names_view(s.available_locales@) == locs->Ok_0
                &&& s.selected_locale@ == spec_select_locale(
                    spec_opt_str_view(*requested_locale),
                    locs->Ok_0,
                )
                &&& spec_texts_load_from(spec_tables_view(tables@), s.selected_locale@, 0) == Ok::<
                    Seq<TextEntry>,
                    LoadFailure,
                >(spec_entries_view(s.all_texts@))
                &&& spec_entries_view(s.category_texts@) == spec_filter_category(
                    spec_entries_view(s.all_texts@),
                    selected_category@,
                    0,
                )
                &&& s.selected_category@ == selected_category@
                &&& spec_names_view(s.available_categories@) == Seq::new(
                    spec_tables_view(tables@).len(),
                    |i: int| spec_tables_view(tables@)[i].0,
                )
            },
            Err(e) => match spec_available_locales(csv_header(menu_data@)) {
                Err(f) => e@ == f,
                Ok(ls) => spec_texts_load_from(
                    spec_tables_view(tables@),
                    spec_select_locale(spec_opt_str_view(*requested_locale), ls),
                    0,
                ) == Err::<Seq<TextEntry>, LoadFailure>(e@),
            },
        },
{
    let available_locales = match controller.get_available_locales(menu_data) {
        Ok(ls) => ls,
        Err(e) => {
            return Err(e);
        },
    };
    let selected = select_locale(requested_locale, &available_locales);
    let all_texts = match controller.get_locale_texts(&selected, tables) {
        Ok(ts) => ts,
        Err(e) => {
            return Err(e);
        },
    };
    let category_texts = filter_by_category(&all_texts, selected_category);
    let mut available_categories: Vec<String> = Vec::new();
    let mut i: usize = 0;
    proof {
        assert(spec_names_view(available_categories@) =~= Seq::<Seq<char>>::empty());
    }
    while i < tables.len()
        invariant
            i <= tables@.len(),
            spec_names_view(available_categories@) == Seq::new(
                i as nat,
                |j: int| spec_tables_view(tables@)[j].0,
            ),
        decreases tables@.len() - i,
    {
        let ghost v0 = available_categories@;
        let ghost c0 = spec_names_view(available_categories@);
        available_categories.push(tables[i].0.clone());
        proof {
            assert(spec_names_view(v0).len() == i as int);
            assert(v0.len() == i as int);
            assert(available_categories@ == v0.push(tables@[i as int].0));
            assert forall|j: int| 0 <= j < i + 1 implies spec_names_view(available_categories@)[j]
                == spec_tables_view(tables@)[j].0 by {
                if j < i {
                    assert(available_categories@[j] == v0[j]);
                    assert(available_categories@[j]@ == c0[j]);
                } else {
                    assert(available_categories@[j]@ == tables@[i as int].0@);
                    assert(spec_tables_view(tables@)[j].0 == tables@[i as int].0@);
                }
            }
            assert(spec_names_view(available_categories@) =~= Seq::new(
                (i + 1) as nat,
                |j: int| spec_tables_view(tables@)[j].0,
            ));
        }
        i = i + 1;
    }
    Ok(
        LocaleSnapshot {
            selected_locale: selected,
            selected_category: selected_category.clone(),
            all_texts,
            category_texts,
            available_locales,
            available_categories,
        },
    )
}

/// How a completed load was resolved.
#[derive(Debug, Clone, Copy, PartialEq, Eq, Structural)]
pub enum LoadResolution {
    /// The result replaced the published snapshot.
    Published,
    /// The load failed; the failure is recorded and the old snapshot
    /// stays visible.
    Failed,
    /// A newer load had been started; the result was thrown away.
    Discarded,
}

/// Orders asynchronous loads: each started load gets a fresh ticket, and
/// only a completion bearing the most recent ticket may publish or fail;
/// any other completion is discarded without touching the published
/// state. Workers compute snapshots; only the owner of this value (the
/// interactive context) mutates it.
pub struct LoadCoordinator {
    /// Ticket of the most recently started load.
    pub current_epoch: u64,
    /// Set when the most recently started load has not resolved yet.
    pub loading: bool,
    /// The last published snapshot; stays visible across failures.
    pub snapshot: Option<LocaleSnapshot>,
    /// The recorded failure of the current target, when it failed.
    pub failure: Option<LocaleError>,
}

pub open spec fn spec_idle() -> LoadCoordinator {
    LoadCoordinator { current_epoch: 0, loading: false, snapshot: None, failure: None }
}

pub open spec fn spec_start_load(c: LoadCoordinator) -> LoadCoordinator {
    LoadCoordinator {
        current_epoch: (c.current_epoch + 1) as u64,
        loading: true,
        snapshot: c.snapshot,
        failure: c.failure,
    }
}

pub open spec fn spec_finish_load(
    c: LoadCoordinator,
    ticket: u64,
    result: Result<LocaleSnapshot, LocaleError>,
) -> (LoadCoordinator, LoadResolution) {
    if ticket != c.current_epoch {
        (c, LoadResolution::Discarded)
    } else {
        match result {
            Ok(s) => (
                LoadCoordinator {
                    current_epoch: c.current_epoch,
                    loading: false,
                    snapshot: Some(s),
                    failure: None,
                },
                LoadResolution::Published,
            ),
            Err(e) => (
                LoadCoordinator {
                    current_epoch: c.current_epoch,
                    loading: false,
                    snapshot: c.snapshot,
                    failure: Some(e),
                },
                LoadResolution::Failed,
            ),
        }
    }
}

impl LoadCoordinator {
    /// No load started yet, nothing published.
    pub fn new() -> (c: Self)
        ensures
            c == spec_idle(),
    {
        LoadCoordinator { current_epoch: 0, loading: false, snapshot: None, failure: None }
    }

    /// Starts a load for the current selection: the loading indicator
    /// goes up before any work runs, every earlier in-flight load
    /// becomes stale, and the returned ticket names the new load.
    pub fn start_load(&mut self) -> (ticket: u64)
        requires
            old(self).current_epoch < u64::MAX,
        ensures
            *final(self) == spec_start_load(*old(self)),
            ticket == final(self).current_epoch,
    {
        self.current_epoch = self.current_epoch + 1;
        self.loading = true;
        self.current_epoch
    }

    /// Resolves a completed load. A stale ticket changes nothing and is
    /// discarded; the current ticket publishes its snapshot whole, or
    /// records its failure while the old snapshot stays visible. Either
    /// way the loading indicator clears only for the current ticket.
    pub fn finish_load(&mut self, ticket: u64, result: Result<LocaleSnapshot, LocaleError>) -> (res:
        LoadResolution)
        ensures
            (*final(self), res) == spec_finish_load(*old(self), ticket, result),
    {
        if ticket != self.current_epoch {
            LoadResolution::Discarded
        } else {
            match result {
                Ok(s) => {
                    self.loading = false;
                    self.snapshot = Some(s);
                    self.failure = None;
                    LoadResolution::Published
                },
                Err(e) => {
                    self.loading = false;
                    self.failure = Some(e);
                    LoadResolution::Failed
                },
            }
        }
    }
}

/// A completion whose ticket is not the most recent one is discarded and
/// leaves the coordinator exactly as it was.
pub proof fn lemma_stale_load_discarded(
    c: LoadCoordinator,
    ticket: u64,
    result: Result<LocaleSnapshot, LocaleError>,
)
    requires
        ticket != c.current_epoch,
    ensures
        spec_finish_load(c, ticket, result) == (c, LoadResolution::Discarded),
{
}

/// Selections A then B issued in quick succession: whichever completion
/// arrives first, A's is discarded without any observable intermediate
/// state, and the snapshot finally published is B's.
pub proof fn lemma_latest_selection_wins(
    c0: LoadCoordinator,
    a_result: Result<LocaleSnapshot, LocaleError>,
    b_snapshot: LocaleSnapshot,
)
    requires
        c0.current_epoch + 2 <= u64::MAX,
    ensures
        ({
            let c1 = spec_start_load(c0);
            let c2 = spec_start_load(c1);
            let (c3, r3) = spec_finish_load(c2, c1.current_epoch, a_result);
            let (c4, r4) = spec_finish_load(c3, c2.current_epoch, Ok(b_snapshot));
            &&& r3 == LoadResolution::Discarded
            &&& c3 == c2
            &&& r4 == LoadResolution::Published
            &&& c4.snapshot == Some(b_snapshot)
            &&& !c4.loading
        }),
        ({
            let c1 = spec_start_load(c0);
            let c2 = spec_start_load(c1);
            let (c3, r3) = spec_finish_load(c2, c2.current_epoch, Ok(b_snapshot));
            let (c4, r4) = spec_finish_load(c3, c1.current_epoch, a_result);
            &&& r3 == LoadResolution::Published
            &&& r4 == LoadResolution::Discarded
            &&& c4 == c3
            &&& c4.snapshot == Some(b_snapshot)
            &&& !c4.loading
        }),
{
}

} // verus!
