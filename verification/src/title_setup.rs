//! Setup of the terminal title: which items it shows, and in which order.

use vstd::prelude::*;

use crate::text::join;
use crate::text::joined;
use crate::text::opt_text;
use crate::text::same_text;
use crate::text::texts;

verus! {

/// Available items that can be displayed in the terminal title.
#[derive(Clone, Copy, Debug, PartialEq, Eq, Structural)]
pub enum TerminalTitleItem {
    /// Project root name, or a compact cwd fallback.
    Project,
    /// Compact runtime status (Ready, Working, Thinking, ...).
    Status,
    /// Current thread title (if available).
    Thread,
    /// Current git branch (if available).
    GitBranch,
    /// Current model name.
    Model,
    /// Latest checklist task progress from `update_plan` (if available).
    TaskProgress,
}

/// All items, in the order in which they are offered.
pub open spec fn all_items() -> Seq<TerminalTitleItem> {
    seq![
        TerminalTitleItem::Project,
        TerminalTitleItem::Status,
        TerminalTitleItem::Thread,
        TerminalTitleItem::GitBranch,
        TerminalTitleItem::Model,
        TerminalTitleItem::TaskProgress,
    ]
}

/// The identifier of an item.
pub open spec fn item_id(item: TerminalTitleItem) -> Seq<char> {
    match item {
        TerminalTitleItem::Project => "project"@,
        TerminalTitleItem::Status => "status"@,
        TerminalTitleItem::Thread => "thread"@,
        TerminalTitleItem::GitBranch => "git-branch"@,
        TerminalTitleItem::Model => "model"@,
        TerminalTitleItem::TaskProgress => "task-progress"@,
    }
}

/// The item with an identifier.
pub open spec fn item_of(id: Seq<char>) -> Option<TerminalTitleItem> {
    if id == "project"@ {
        Some(TerminalTitleItem::Project)
    } else if id == "status"@ {
        Some(TerminalTitleItem::Status)
    } else if id == "thread"@ {
        Some(TerminalTitleItem::Thread)
    } else if id == "git-branch"@ {
        Some(TerminalTitleItem::GitBranch)
    } else if id == "model"@ {
        Some(TerminalTitleItem::Model)
    } else if id == "task-progress"@ {
        Some(TerminalTitleItem::TaskProgress)
    } else {
        None
    }
}

/// What an item says of itself.
pub open spec fn item_description(item: TerminalTitleItem) -> Seq<char> {
    match item {
        TerminalTitleItem::Project => "Project name (falls back to current directory name)"@,
        TerminalTitleItem::Status => "Compact session status (Ready, Working, Thinking, ...)"@,
        TerminalTitleItem::Thread => "Current thread title (omitted until available)"@,
        TerminalTitleItem::GitBranch => "Current Git branch (omitted when unavailable)"@,
        TerminalTitleItem::Model => "Current model name"@,
        TerminalTitleItem::TaskProgress => {
            "Latest task progress from update_plan (omitted until available)"@
        },
    }
}

/// The sample of an item that the preview shows.
pub open spec fn item_sample(item: TerminalTitleItem) -> Seq<char> {
    match item {
        TerminalTitleItem::Project => "codex"@,
        TerminalTitleItem::Status => "Working"@,
        TerminalTitleItem::Thread => "Fix terminal title command"@,
        TerminalTitleItem::GitBranch => "feat/title-command"@,
        TerminalTitleItem::Model => "gpt-5.2-codex"@,
        TerminalTitleItem::TaskProgress => "Tasks 2/5"@,
    }
}

/// An identifier names the item that it belongs to, and no other.
pub proof fn lemma_item_of_id(item: TerminalTitleItem, id: Seq<char>)
    ensures
        item_of(item_id(item)) == Some(item),
        item_of(id) == Some(item) <==> id == item_id(item),
{
    reveal_strlit("project");
    reveal_strlit("status");
    reveal_strlit("thread");
    reveal_strlit("git-branch");
    reveal_strlit("model");
    reveal_strlit("task-progress");
    assert("project"@[0] == 'p');
    assert("status"@[0] == 's');
    assert("thread"@[1] == 'h');
    assert("git-branch"@[0] == 'g');
    assert("model"@[0] == 'm');
    assert("task-progress"@[1] == 'a');
    assert("thread"@[0] == 't');
    assert("task-progress"@[0] == 't');
}

impl TerminalTitleItem {
    /// The identifier of the item.
    pub fn id(&self) -> (id: &'static str)
        ensures
            id@ == item_id(*self),
    {
        match self {
            TerminalTitleItem::Project => "project",
            TerminalTitleItem::Status => "status",
            TerminalTitleItem::Thread => "thread",
            TerminalTitleItem::GitBranch => "git-branch",
            TerminalTitleItem::Model => "model",
            TerminalTitleItem::TaskProgress => "task-progress",
        }
    }

    /// The item with an identifier.
    pub fn parse(id: &str) -> (item: Option<TerminalTitleItem>)
        ensures
            item == item_of(id@),
    {
        if same_text(id, "project") {
            Some(TerminalTitleItem::Project)
        } else if same_text(id, "status") {
            Some(TerminalTitleItem::Status)
        } else if same_text(id, "thread") {
            Some(TerminalTitleItem::Thread)
        } else if same_text(id, "git-branch") {
            Some(TerminalTitleItem::GitBranch)
        } else if same_text(id, "model") {
            Some(TerminalTitleItem::Model)
        } else if same_text(id, "task-progress") {
            Some(TerminalTitleItem::TaskProgress)
        } else {
            None
        }
    }

    /// What the item says of itself.
    pub fn description(&self) -> (description: &'static str)
        ensures
            description@ == item_description(*self),
    {
        match self {
            TerminalTitleItem::Project => "Project name (falls back to current directory name)",
            TerminalTitleItem::Status => "Compact session status (Ready, Working, Thinking, ...)",
            TerminalTitleItem::Thread => "Current thread title (omitted until available)",
            TerminalTitleItem::GitBranch => "Current Git branch (omitted when unavailable)",
            TerminalTitleItem::Model => "Current model name",
            TerminalTitleItem::TaskProgress => {
                "Latest task progress from update_plan (omitted until available)"
            },
        }
    }

    /// The sample of the item that the preview shows.
    pub fn render(&self) -> (sample: &'static str)
        ensures
            sample@ == item_sample(*self),
    {
        match self {
            TerminalTitleItem::Project => "codex",
            TerminalTitleItem::Status => "Working",
            TerminalTitleItem::Thread => "Fix terminal title command",
            TerminalTitleItem::GitBranch => "feat/title-command",
            TerminalTitleItem::Model => "gpt-5.2-codex",
            TerminalTitleItem::TaskProgress => "Tasks 2/5",
        }
    }

    /// All items, in the order in which they are offered.
    pub fn iter() -> (items: Vec<TerminalTitleItem>)
        ensures
            items@ == all_items(),
    {
        vec![
            TerminalTitleItem::Project,
            TerminalTitleItem::Status,
            TerminalTitleItem::Thread,
            TerminalTitleItem::GitBranch,
            TerminalTitleItem::Model,
            TerminalTitleItem::TaskProgress,
        ]
    }
}

/// An entry of a list of which several can be selected.
#[derive(Clone, Debug, PartialEq, Eq)]
pub struct MultiSelectItem {
    /// The identifier of the entry.
    pub id: String,
    /// The name that is shown.
    pub name: String,
    /// What the entry says of itself.
    pub description: Option<String>,
    /// Whether the entry is selected.
    pub enabled: bool,
}

/// An entry, with its texts as characters.
pub struct EntryView {
    /// The identifier of the entry.
    pub id: Seq<char>,
    /// The name that is shown.
    pub name: Seq<char>,
    /// What the entry says of itself.
    pub description: Option<Seq<char>>,
    /// Whether the entry is selected.
    pub enabled: bool,
}

impl View for MultiSelectItem {
    type V = EntryView;

    open spec fn view(&self) -> EntryView {
        EntryView {
            id: self.id@,
            name: self.name@,
            description: opt_text(self.description),
            enabled: self.enabled,
        }
    }
}

/// The entries of a list.
pub open spec fn entries(items: Seq<MultiSelectItem>) -> Seq<EntryView> {
    Seq::new(items.len(), |i: int| items[i]@)
}

/// The entry for an item.
pub open spec fn entry_for(item: TerminalTitleItem, enabled: bool) -> EntryView {
    EntryView {
        id: item_id(item),
        name: item_id(item),
        description: Some(item_description(item)),
        enabled,
    }
}

/// The items that identifiers name, each once, in their order; unknown identifiers name none.
pub open spec fn chosen(ids: Seq<Seq<char>>) -> Seq<TerminalTitleItem>
    decreases ids.len(),
{
    if ids.len() == 0 {
        Seq::empty()
    } else {
        let before = chosen(ids.drop_last());
        match item_of(ids.last()) {
            Some(item) => if before.contains(item) {
                before
            } else {
                before.push(item)
            },
            None => before,
        }
    }
}

/// The items that are not chosen, in the order in which they are offered.
pub open spec fn others(taken: Seq<TerminalTitleItem>) -> Seq<TerminalTitleItem> {
    all_items().filter(|item: TerminalTitleItem| !taken.contains(item))
}

/// The items of the setup, in order.
pub open spec fn setup_items(ids: Seq<Seq<char>>) -> Seq<TerminalTitleItem> {
    chosen(ids) + others(chosen(ids))
}

/// The entries of the setup: the chosen items first, selected, then the others.
pub open spec fn setup_entries(ids: Seq<Seq<char>>) -> Seq<EntryView> {
    Seq::new(
        setup_items(ids).len(),
        |i: int| entry_for(setup_items(ids)[i], i < chosen(ids).len()),
    )
}

/// Nothing is chosen twice.
proof fn lemma_chosen_distinct(ids: Seq<Seq<char>>)
    ensures
        chosen(ids).no_duplicates(),
    decreases ids.len(),
{
    if ids.len() > 0 {
        lemma_chosen_distinct(ids.drop_last());
    }
}

/// The setup offers every item exactly once, whatever was configured.
pub proof fn lemma_setup_complete(ids: Seq<Seq<char>>)
    ensures
        setup_items(ids).no_duplicates(),
        forall|item: TerminalTitleItem| #[trigger] setup_items(ids).contains(item),
        setup_items(ids).len() == all_items().len(),
{
    let taken = chosen(ids);
    let free = |item: TerminalTitleItem| !taken.contains(item);
    let rest = others(taken);
    let all = setup_items(ids);
    lemma_chosen_distinct(ids);
    assert(all_items().no_duplicates());
    assert forall|i: int| 0 <= i < rest.len() implies !taken.contains(#[trigger] rest[i]) by {
        all_items().lemma_filter_pred(free, i);
    }
    assert(rest.no_duplicates()) by {
        lemma_filter_distinct(all_items(), free);
    }
    assert(all.no_duplicates()) by {
        assert forall|i: int, j: int| 0 <= i < j < all.len() implies all[i] != all[j] by {
            if i < taken.len() && j >= taken.len() {
                assert(taken.contains(all[i]));
                assert(!taken.contains(rest[j - taken.len()]));
            } else if i >= taken.len() {
                assert(rest[i - taken.len()] != rest[j - taken.len()]);
            }
        }
    }
    assert forall|item: TerminalTitleItem| #[trigger] all.contains(item) by {
        let source = all_items();
        let at = match item {
            TerminalTitleItem::Project => 0int,
            TerminalTitleItem::Status => 1,
            TerminalTitleItem::Thread => 2,
            TerminalTitleItem::GitBranch => 3,
            TerminalTitleItem::Model => 4,
            TerminalTitleItem::TaskProgress => 5,
        };
        assert(source[at] == item);
        if taken.contains(item) {
            let i = choose|i: int| 0 <= i < taken.len() && taken[i] == item;
            assert(all[i] == item);
        } else {
            source.lemma_filter_contains(free, at);
            let i = choose|i: int| 0 <= i < rest.len() && rest[i] == item;
            assert(all[taken.len() + i] == item);
        }
    }
    assert(all.to_set() =~= all_items().to_set()) by {
        assert forall|item: TerminalTitleItem| all_items().to_set().contains(item) by {
            let at = match item {
                TerminalTitleItem::Project => 0int,
                TerminalTitleItem::Status => 1,
                TerminalTitleItem::Thread => 2,
                TerminalTitleItem::GitBranch => 3,
                TerminalTitleItem::Model => 4,
                TerminalTitleItem::TaskProgress => 5,
            };
            assert(all_items()[at] == item);
        }
        assert forall|item: TerminalTitleItem| all.to_set().contains(item) by {
            assert(all.contains(item));
        }
    }
    all.unique_seq_to_set();
    all_items().unique_seq_to_set();
}

/// A selection from a list without duplicates has none.
proof fn lemma_filter_distinct(
    items: Seq<TerminalTitleItem>,
    kept: spec_fn(TerminalTitleItem) -> bool,
)
    requires
        items.no_duplicates(),
    ensures
        items.filter(kept).no_duplicates(),
        forall|i: int| 0 <= i < items.filter(kept).len() ==> items.contains(
            #[trigger] items.filter(kept)[i],
        ),
    decreases items.len(),
{
    reveal(Seq::filter);
    if items.len() > 0 {
        let shorter = items.drop_last();
        assert(shorter.no_duplicates());
        lemma_filter_distinct(shorter, kept);
        let rest = shorter.filter(kept);
        assert forall|i: int| 0 <= i < rest.len() implies rest[i] != items.last()
            && items.contains(#[trigger] rest[i]) by {
            assert(shorter.contains(rest[i]));
            let j = choose|j: int| 0 <= j < shorter.len() && shorter[j] == rest[i];
            assert(items[j] == rest[i]);
            assert(items[items.len() - 1] == items.last());
        }
        assert(items[items.len() - 1] == items.last());
    }
}

/// Whether a list holds an item.
fn holds(items: &Vec<TerminalTitleItem>, item: TerminalTitleItem) -> (held: bool)
    ensures
        held == items@.contains(item),
{
    let mut at: usize = 0;
    while at < items.len()
        invariant
            at <= items@.len(),
            forall|i: int| 0 <= i < at ==> items@[i] != item,
        decreases items@.len() - at,
    {
        if items[at] == item {
            return true;
        }
        at += 1;
    }
    false
}

/// Interactive view for configuring terminal-title items.
#[derive(Clone, Debug)]
pub struct TerminalTitleSetupView {
    /// The entries that are offered, in order.
    pub items: Vec<MultiSelectItem>,
}

/// What the setup was configured with, or nothing.
pub open spec fn configured(title_items: Option<&Vec<String>>) -> Seq<Seq<char>> {
    match title_items {
        Some(ids) => texts(ids@),
        None => Seq::empty(),
    }
}

impl TerminalTitleSetupView {
    /// The setup for configured identifiers: known ones come first, selected and each once, then
    /// every other item.
    pub fn new(title_items: Option<&Vec<String>>) -> (view: TerminalTitleSetupView)
        ensures
            entries(view.items@) == setup_entries(configured(title_items)),
    {
        let mut used: Vec<TerminalTitleItem> = Vec::new();
        let mut items: Vec<MultiSelectItem> = Vec::new();
        let ghost ids = configured(title_items);
        proof {
            assert(ids.take(0) =~= Seq::<Seq<char>>::empty());
            assert(used@ =~= chosen(ids.take(0)));
        }
        if let Some(selected) = title_items {
            let mut at: usize = 0;
            while at < selected.len()
                invariant
                    at <= selected@.len(),
                    ids == texts(selected@),
                    used@ == chosen(ids.take(at as int)),
                    items@.len() == used@.len(),
                    forall|i: int|
                        0 <= i < items@.len() ==> #[trigger] items@[i]@ == entry_for(
                            used@[i],
                            true,
                        ),
                decreases selected@.len() - at,
            {
                proof {
                    assert(ids.take(at + 1).drop_last() =~= ids.take(at as int));
                    assert(ids.take(at + 1).last() == selected@[at as int]@);
                }
                if let Some(item) = TerminalTitleItem::parse(selected[at].as_str()) {
                    if !holds(&used, item) {
                        used.push(item);
                        items.push(Self::title_select_item(item, true));
                    }
                }
                at += 1;
            }
            assert(ids.take(at as int) =~= ids);
        } else {
            assert(ids.take(0) =~= ids);
        }
        let ghost taken = used@;
        let ghost free = |item: TerminalTitleItem| !taken.contains(item);
        let offered = TerminalTitleItem::iter();
        let mut at: usize = 0;
        proof {
            reveal(Seq::filter);
            assert(offered@.take(0) =~= Seq::<TerminalTitleItem>::empty());
        }
        while at < offered.len()
            invariant
                at <= offered@.len(),
                used@ == taken,
                offered@ == all_items(),
                free == (|item: TerminalTitleItem| !taken.contains(item)),
                items@.len() == taken.len() + offered@.take(at as int).filter(free).len(),
                forall|i: int|
                    0 <= i < taken.len() ==> #[trigger] items@[i]@ == entry_for(taken[i], true),
                forall|i: int|
                    taken.len() <= i < items@.len() ==> #[trigger] items@[i]@ == entry_for(
                        offered@.take(at as int).filter(free)[i - taken.len()],
                        false,
                    ),
            decreases offered@.len() - at,
        {
            proof {
                reveal(Seq::filter);
                assert(offered@.take(at + 1).drop_last() =~= offered@.take(at as int));
                assert(offered@.take(at + 1).last() == offered@[at as int]);
            }
            let item = offered[at];
            if !holds(&used, item) {
                items.push(Self::title_select_item(item, false));
            }
            at += 1;
        }
        proof {
            assert(offered@.take(at as int) =~= all_items());
            assert(entries(items@) =~= setup_entries(ids));
        }
        TerminalTitleSetupView { items }
    }

    /// The entry for an item.
    pub fn title_select_item(item: TerminalTitleItem, enabled: bool) -> (entry: MultiSelectItem)
        ensures
            entry@ == entry_for(item, enabled),
    {
        MultiSelectItem {
            id: item.id().to_owned(),
            name: item.id().to_owned(),
            description: Some(item.description().to_owned()),
            enabled,
        }
    }
}

/// The samples of the selected entries that name items.
pub open spec fn samples(shown: Seq<EntryView>) -> Seq<Seq<char>>
    decreases shown.len(),
{
    if shown.len() == 0 {
        Seq::empty()
    } else {
        let before = samples(shown.drop_last());
        match item_of(shown.last().id) {
            Some(item) => if shown.last().enabled {
                before.push(item_sample(item))
            } else {
                before
            },
            None => before,
        }
    }
}

/// The title that the selected entries give, with sample values; none where it would be empty.
pub fn preview(items: &Vec<MultiSelectItem>) -> (line: Option<String>)
    ensures
        match line {
            Some(text) => text@.len() > 0 && text@ == join(samples(entries(items@)), " | "@),
            None => join(samples(entries(items@)), " | "@).len() == 0,
        },
{
    let mut parts: Vec<String> = Vec::new();
    let ghost shown = entries(items@);
    let mut at: usize = 0;
    proof {
        assert(shown.take(0) =~= Seq::<EntryView>::empty());
        assert(texts(parts@) =~= Seq::<Seq<char>>::empty());
    }
    while at < items.len()
        invariant
            at <= items@.len(),
            shown == entries(items@),
            texts(parts@) == samples(shown.take(at as int)),
        decreases items@.len() - at,
    {
        let ghost before = texts(parts@);
        proof {
            assert(shown.take(at + 1).drop_last() =~= shown.take(at as int));
            assert(shown.take(at + 1).last() == items@[at as int]@);
        }
        if items[at].enabled {
            if let Some(item) = TerminalTitleItem::parse(items[at].id.as_str()) {
                parts.push(item.render().to_owned());
                assert(texts(parts@) =~= before.push(item_sample(item)));
            }
        }
        at += 1;
    }
    assert(shown.take(at as int) =~= shown);
    let line = joined(&parts, " | ");
    if line.as_str().is_empty() {
        None
    } else {
        Some(line)
    }
}

/// The items that confirmed identifiers name, in order; none where one of them names no item.
pub fn confirmed(ids: &Vec<String>) -> (items: Vec<TerminalTitleItem>)
    ensures
        (forall|i: int| 0 <= i < ids@.len() ==> item_of(#[trigger] ids@[i]@) is Some)
            ==> items@.len() == ids@.len() && forall|i: int|
            0 <= i < ids@.len() ==> Some(#[trigger] items@[i]) == item_of(ids@[i]@),
        (exists|i: int| 0 <= i < ids@.len() && item_of(#[trigger] ids@[i]@) is None)
            ==> items@.len() == 0,
{
    let mut items: Vec<TerminalTitleItem> = Vec::new();
    let mut at: usize = 0;
    while at < ids.len()
        invariant
            at <= ids@.len(),
            items@.len() == at,
            forall|i: int| 0 <= i < at ==> Some(#[trigger] items@[i]) == item_of(ids@[i]@),
        decreases ids@.len() - at,
    {
        match TerminalTitleItem::parse(ids[at].as_str()) {
            Some(item) => items.push(item),
            None => {
                assert(item_of(ids@[at as int]@) is None);
                return Vec::new();
            },
        }
        at += 1;
    }
    assert forall|i: int| 0 <= i < ids@.len() implies item_of(#[trigger] ids@[i]@) is Some by {
        assert(Some(items@[i]) == item_of(ids@[i]@));
    }
    items
}

/// An item is chosen where one of the identifiers names it, and only there.
pub proof fn lemma_chosen_named(ids: Seq<Seq<char>>, item: TerminalTitleItem)
    ensures
        chosen(ids).contains(item) <==> exists|i: int|
            0 <= i < ids.len() && #[trigger] ids[i] == item_id(item),
    decreases ids.len(),
{
    if ids.len() > 0 {
        let shorter = ids.drop_last();
        let before = chosen(shorter);
        let all = chosen(ids);
        lemma_chosen_named(shorter, item);
        lemma_item_of_id(item, ids.last());
        if before.contains(item) {
            let i = choose|i: int| 0 <= i < before.len() && before[i] == item;
            assert(all[i] == item);
            let j = choose|j: int| 0 <= j < shorter.len() && #[trigger] shorter[j] == item_id(item);
            assert(ids[j] == item_id(item));
        }
        if ids.last() == item_id(item) {
            assert(ids[ids.len() - 1] == item_id(item));
            if !before.contains(item) {
                assert(all[before.len() as int] == item);
            }
        }
        if exists|i: int| 0 <= i < ids.len() && #[trigger] ids[i] == item_id(item) {
            let i = choose|i: int| 0 <= i < ids.len() && #[trigger] ids[i] == item_id(item);
            if i < shorter.len() {
                assert(shorter[i] == item_id(item));
            }
        }
        if all.contains(item) && !before.contains(item) {
            let i = choose|i: int| 0 <= i < all.len() && all[i] == item;
            assert(i == before.len());
            assert(item_of(ids.last()) == Some(item));
        }
    }
}

/// Identifiers of different items are offered first, in the order in which they were configured.
pub proof fn lemma_chosen_in_order(items: Seq<TerminalTitleItem>)
    requires
        items.no_duplicates(),
    ensures
        chosen(Seq::new(items.len(), |i: int| item_id(items[i]))) == items,
    decreases items.len(),
{
    let ids = Seq::new(items.len(), |i: int| item_id(items[i]));
    if items.len() == 0 {
        assert(chosen(ids) =~= items);
    } else {
        let fewer = items.drop_last();
        lemma_chosen_in_order(fewer);
        assert(ids.drop_last() =~= Seq::new(fewer.len(), |i: int| item_id(fewer[i])));
        lemma_item_of_id(items.last(), ids.last());
        if fewer.contains(items.last()) {
            let i = choose|i: int| 0 <= i < fewer.len() && fewer[i] == items.last();
            assert(items[i] == items[items.len() - 1]);
        }
        assert(fewer.push(items.last()) =~= items);
    }
}

/// The entries of the setup: one for each item, by its identifier; those that were configured are
/// selected and come first, and no other is selected.
pub proof fn lemma_setup_entries(ids: Seq<Seq<char>>, at: int)
    requires
        0 <= at < setup_items(ids).len(),
    ensures
        setup_entries(ids).len() == setup_items(ids).len(),
        setup_entries(ids)[at].id == item_id(setup_items(ids)[at]),
        setup_entries(ids)[at].enabled <==> chosen(ids).contains(setup_items(ids)[at]),
        at < chosen(ids).len() ==> setup_items(ids)[at] == chosen(ids)[at],
        setup_entries(ids)[at].enabled <==> at < chosen(ids).len(),
{
    let taken = chosen(ids);
    let rest = others(taken);
    if at < taken.len() {
        assert(taken.contains(taken[at]));
    } else {
        all_items().lemma_filter_pred(
            |item: TerminalTitleItem| !taken.contains(item),
            at - taken.len(),
        );
    }
}

/// The preview shows the sample of each selected entry that names an item, in order, and nothing of
/// any other.
pub proof fn lemma_samples(shown: Seq<EntryView>, entry: EntryView, item: TerminalTitleItem)
    ensures
        entry.enabled && entry.id == item_id(item) ==> samples(shown.push(entry)) == samples(
            shown,
        ).push(item_sample(item)),
        !entry.enabled ==> samples(shown.push(entry)) == samples(shown),
        item_of(entry.id) is None ==> samples(shown.push(entry)) == samples(shown),
        samples(Seq::<EntryView>::empty()).len() == 0,
{
    assert(shown.push(entry).drop_last() =~= shown);
    lemma_item_of_id(item, entry.id);
}

} // verus!
