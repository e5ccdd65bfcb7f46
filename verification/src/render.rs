//! The render projection: what the screen shows for a state. Nothing here
//! draws; the result says, region by region, what is to be painted.

use crate::app::{text_of, App, AppMode, AppView};
use crate::entry::TryEntry;
use crate::layout::ScreenLayout;
use crate::text::{chars_of, string_of};
use vstd::prelude::*;
use vstd::string::{StrSliceExecFns, StringExecFns};

verus! {

/// The character of the decimal digit `d`.
pub open spec fn digit_char(d: int) -> char {
    ('0' as u32 + d) as char
}

/// `n` in decimal notation.
pub open spec fn decimal(n: nat) -> Seq<char>
    decreases n,
{
    if n < 10 {
        seq![digit_char(n as int)]
    } else {
        decimal(n / 10).push(digit_char((n % 10) as int))
    }
}

/// `n` in decimal notation, with a leading zero where it has one digit.
pub open spec fn two_digits(n: nat) -> Seq<char> {
    if n < 10 {
        seq!['0'] + decimal(n)
    } else {
        decimal(n)
    }
}

/// The nanoseconds from `then` to `now`; none where `then` is not in the past.
pub open spec fn elapsed_nanos(now: i128, then: i128) -> nat {
    if now > then {
        (now - then) as nat
    } else {
        0
    }
}

/// The age shown for an entry modified at `modified`: whole days, then the
/// hours and minutes left over, as `(DDd HHh MMm)`.
pub open spec fn age_text(now: i128, modified: i128) -> Seq<char> {
    let secs = elapsed_nanos(now, modified) / 1_000_000_000;
    seq!['('] + two_digits(secs / 86400) + seq!['d', ' '] + two_digits((secs % 86400) / 3600)
        + seq!['h', ' '] + two_digits((secs % 3600) / 60) + seq!['m', ')']
}

fn digit_of(d: u128) -> (c: char)
    requires
        d < 10,
    ensures
        c == digit_char(d as int),
{
    if d == 0 {
        '0'
    } else if d == 1 {
        '1'
    } else if d == 2 {
        '2'
    } else if d == 3 {
        '3'
    } else if d == 4 {
        '4'
    } else if d == 5 {
        '5'
    } else if d == 6 {
        '6'
    } else if d == 7 {
        '7'
    } else if d == 8 {
        '8'
    } else {
        '9'
    }
}

fn push_decimal(out: &mut String, n: u128)
    ensures
        final(out)@ == old(out)@ + decimal(n as nat),
    decreases n,
{
    if n >= 10 {
        push_decimal(out, n / 10);
    }
    out.push(digit_of(n % 10));
    assert(final(out)@ =~= old(out)@ + decimal(n as nat));
}

fn push_two_digits(out: &mut String, n: u128)
    ensures
        final(out)@ == old(out)@ + two_digits(n as nat),
{
    if n < 10 {
        out.push('0');
    }
    push_decimal(out, n);
    assert(final(out)@ =~= old(out)@ + two_digits(n as nat));
}

fn nanos_between(now: i128, then: i128) -> (d: u128)
    ensures
        d == elapsed_nanos(now, then),
{
    if now <= then {
        0
    } else if then >= 0 || now < 0 {
        (now - then) as u128
    } else {
        now as u128 + (-(then + 1)) as u128 + 1
    }
}

/// The age label of an entry last modified at `modified`, seen at `now`.
pub fn age_label(now: i128, modified: i128) -> (label: String)
    ensures
        label@ == age_text(now, modified),
{
    let secs = nanos_between(now, modified) / 1_000_000_000;
    let mut label = String::new();
    label.push('(');
    push_two_digits(&mut label, secs / 86400);
    label.push('d');
    label.push(' ');
    push_two_digits(&mut label, (secs % 86400) / 3600);
    label.push('h');
    label.push(' ');
    push_two_digits(&mut label, (secs % 3600) / 60);
    label.push('m');
    label.push(')');
    assert(label@ =~= age_text(now, modified));
    label
}

/// One row of the list, as it is shown: from the left the folder sign, the
/// creation date, a blank and the name, the padding, the markers and the age.
#[derive(Debug)]
pub struct ListRow {
    /// The creation date, as it was handed in.
    pub created: String,
    /// The name, cut short and ended in `...` where the row is too narrow.
    pub name: String,
    /// The number of blanks between the name and what follows it.
    pub padding: usize,
    pub is_cargo: bool,
    pub is_maven: bool,
    pub is_flutter: bool,
    pub is_go: bool,
    pub is_python: bool,
    pub is_mise: bool,
    pub is_git: bool,
    /// The time since the last modification, as `(DDd HHh MMm)`.
    pub age: String,
}

/// A row as a mathematical value.
pub struct RowView {
    pub created: Seq<char>,
    pub name: Seq<char>,
    pub padding: nat,
    pub is_cargo: bool,
    pub is_maven: bool,
    pub is_flutter: bool,
    pub is_go: bool,
    pub is_python: bool,
    pub is_mise: bool,
    pub is_git: bool,
    pub age: Seq<char>,
}

impl View for ListRow {
    type V = RowView;

    open spec fn view(&self) -> RowView {
        RowView {
            created: self.created@,
            name: self.name@,
            padding: self.padding as nat,
            is_cargo: self.is_cargo,
            is_maven: self.is_maven,
            is_flutter: self.is_flutter,
            is_go: self.is_go,
            is_python: self.is_python,
            is_mise: self.is_mise,
            is_git: self.is_git,
            age: self.age@,
        }
    }
}

/// The columns a marker takes when it is shown.
pub open spec fn marker_columns(shown: bool) -> nat {
    if shown {
        2
    } else {
        0
    }
}

/// The columns that the markers of `entry` take.
pub open spec fn markers_width(entry: TryEntry) -> nat {
    marker_columns(entry.is_git) + marker_columns(entry.is_mise) + marker_columns(entry.is_cargo)
        + marker_columns(entry.is_maven) + marker_columns(entry.is_flutter) + marker_columns(
        entry.is_go,
    ) + marker_columns(entry.is_python)
}

/// The columns of a row that are not the name's: the age, the markers, the
/// folder sign of two columns, the creation date and two blanks.
pub open spec fn reserved_width(entry: TryEntry, created_len: nat, age_len: nat) -> nat {
    age_len + markers_width(entry) + 2 + created_len + 2
}

/// The columns left for the name in a row of `width` columns.
pub open spec fn name_room(width: nat, reserved: nat) -> nat {
    if width > reserved {
        (width - reserved) as nat
    } else {
        0
    }
}

/// The name as shown in `room` columns: whole where it fits, else its start
/// and `...`, three columns being kept for the dots.
pub open spec fn shown_name(name: Seq<char>, room: nat) -> Seq<char> {
    if name.len() > room {
        name.take(
            if room > 3 {
                room - 3
            } else {
                0
            },
        ) + "..."@
    } else {
        name
    }
}

/// The blanks behind the name: one where the name was cut, else what fills
/// the row to its width.
pub open spec fn name_padding(name_len: nat, width: nat, reserved: nat) -> nat {
    if name_len > name_room(width, reserved) {
        1
    } else if width > reserved - 1 + name_len {
        (width - (reserved - 1 + name_len)) as nat
    } else {
        0
    }
}

/// The row for `entry` in a list of `width` columns.
pub open spec fn row_of(entry: TryEntry, created: Seq<char>, now: i128, width: nat) -> RowView {
    let age = age_text(now, entry.modified);
    let reserved = reserved_width(entry, created.len(), age.len());
    RowView {
        created,
        name: shown_name(entry.name@, name_room(width, reserved)),
        padding: name_padding(entry.name@.len(), width, reserved),
        is_cargo: entry.is_cargo,
        is_maven: entry.is_maven,
        is_flutter: entry.is_flutter,
        is_go: entry.is_go,
        is_python: entry.is_python,
        is_mise: entry.is_mise,
        is_git: entry.is_git,
        age,
    }
}

/// The columns that `row` takes on the screen.
pub open spec fn row_width(row: RowView) -> nat {
    2 + row.created.len() + 1 + row.name.len() + row.padding + marker_columns(row.is_cargo)
        + marker_columns(row.is_maven) + marker_columns(row.is_flutter) + marker_columns(row.is_go)
        + marker_columns(row.is_python) + marker_columns(row.is_mise) + marker_columns(row.is_git)
        + row.age.len()
}

/// A row fills the width of the list exactly, whether the name was cut or
/// not, as long as the width leaves the name the three columns of the dots.
/// A name that is cut ends in `...` and starts as the name does; one that
/// fits is shown whole.
pub proof fn lemma_row_fits(entry: TryEntry, created: Seq<char>, now: i128, width: nat)
    ensures
        ({
            let reserved = reserved_width(entry, created.len(), age_text(now, entry.modified).len());
            let room = name_room(width, reserved);
            let row = row_of(entry, created, now, width);
            &&& room >= 3 ==> row_width(row) == width
            &&& entry.name@.len() <= room ==> row.name == entry.name@
            &&& entry.name@.len() > room ==> "..."@.is_suffix_of(row.name) && row.name.len() == if room
                > 3 {
                room
            } else {
                3
            } && row.name.take(row.name.len() - 3).is_prefix_of(entry.name@)
        }),
{
    reveal_strlit("...");
    let reserved = reserved_width(entry, created.len(), age_text(now, entry.modified).len());
    let room = name_room(width, reserved);
    let row = row_of(entry, created, now, width);
    let name = entry.name@;
    if name.len() > room {
        let kept: int = if room > 3 {
            room - 3
        } else {
            0
        };
        assert(row.name.subrange(row.name.len() - 3, row.name.len() as int) =~= "..."@);
        assert(row.name.take(row.name.len() - 3) =~= name.take(kept));
        assert(name.take(kept) =~= name.subrange(0, kept));
    }
}

fn columns_of(shown: bool) -> (n: u128)
    ensures
        n == marker_columns(shown),
{
    if shown {
        2
    } else {
        0
    }
}

/// Lays out the row of `entry` for a list of `width` columns; `created` is
/// its creation date as it is to be shown.
pub fn list_row(entry: &TryEntry, created: &str, now: i128, width: u16) -> (row: ListRow)
    ensures
        row@ == row_of(*entry, created@, now, width as nat),
{
    let age = age_label(now, entry.modified);
    let chars = chars_of(entry.name.as_str());
    let name_len: u128 = chars.len() as u128;
    let markers: u128 = columns_of(entry.is_git) + columns_of(entry.is_mise) + columns_of(
        entry.is_cargo,
    ) + columns_of(entry.is_maven) + columns_of(entry.is_flutter) + columns_of(entry.is_go)
        + columns_of(entry.is_python);
    let reserved: u128 = age.as_str().unicode_len() as u128 + markers + 2
        + created.unicode_len() as u128 + 2;
    let width: u128 = width as u128;
    let room: u128 = if width > reserved {
        width - reserved
    } else {
        0
    };
    let (name, padding): (String, usize) = if name_len > room {
        let kept: usize = if room > 3 {
            (room - 3) as usize
        } else {
            0
        };
        let mut cut = string_of(&chars, 0, kept);
        cut.append("...");
        assert(chars@.subrange(0, kept as int) =~= chars@.take(kept as int));
        (cut, 1)
    } else {
        let used: u128 = reserved - 1 + name_len;
        let padding: usize = if width > used {
            (width - used) as usize
        } else {
            0
        };
        (entry.name.clone(), padding)
    };
    ListRow {
        created: created.to_owned(),
        name,
        padding,
        is_cargo: entry.is_cargo,
        is_maven: entry.is_maven,
        is_flutter: entry.is_flutter,
        is_go: entry.is_go,
        is_python: entry.is_python,
        is_mise: entry.is_mise,
        is_git: entry.is_git,
        age,
    }
}

/// One child of the previewed directory.
#[derive(Debug)]
pub struct PreviewItem {
    pub name: String,
    pub is_dir: bool,
}

impl View for PreviewItem {
    type V = (Seq<char>, bool);

    open spec fn view(&self) -> (Seq<char>, bool) {
        (self.name@, self.is_dir)
    }
}

/// The preview items as mathematical values.
pub open spec fn items_of(items: Seq<PreviewItem>) -> Seq<(Seq<char>, bool)> {
    items.map_values(|item: PreviewItem| item@)
}

/// What the preview pane shows.
#[derive(Debug)]
pub enum Preview {
    /// The bare pane: no entry is under the cursor.
    NoSelection,
    /// A note that the directory holds nothing to show.
    Empty,
    /// The first children of the directory.
    Items(Vec<PreviewItem>),
}

impl View for Preview {
    type V = Option<Seq<(Seq<char>, bool)>>;

    open spec fn view(&self) -> Option<Seq<(Seq<char>, bool)>> {
        match self {
            Preview::NoSelection => None,
            Preview::Empty => Some(Seq::empty()),
            Preview::Items(items) => Some(items_of(items@)),
        }
    }
}

impl Preview {
    /// `Items` holds at least one item; the empty directory is `Empty`.
    pub open spec fn wf(&self) -> bool {
        match self {
            Preview::Items(items) => items@.len() > 0,
            _ => true,
        }
    }
}

/// What the footer line shows.
#[derive(Debug)]
pub enum Footer {
    /// The status message.
    Status(String),
    /// The help on the keys.
    Help,
}

impl View for Footer {
    type V = Option<Seq<char>>;

    open spec fn view(&self) -> Option<Seq<char>> {
        match self {
            Footer::Status(message) => Some(message@),
            Footer::Help => None,
        }
    }
}

/// What the screen shows, region by region.
#[derive(Debug)]
pub struct Screen {
    /// Where each region lies.
    pub regions: ScreenLayout,
    /// The text of the search box.
    pub query: String,
    /// The rows of the list, one for each entry in view.
    pub rows: Vec<ListRow>,
    /// The row that is highlighted.
    pub selected: usize,
    pub preview: Preview,
    pub footer: Footer,
    /// The confirmation prompt, where one is open.
    pub popup: Option<String>,
}

/// The screen as a mathematical value.
pub struct ScreenView {
    pub regions: ScreenLayout,
    pub query: Seq<char>,
    pub rows: Seq<RowView>,
    pub selected: nat,
    pub preview: Option<Seq<(Seq<char>, bool)>>,
    pub footer: Option<Seq<char>>,
    pub popup: Option<Seq<char>>,
}

/// The rows as mathematical values.
pub open spec fn rows_of(rows: Seq<ListRow>) -> Seq<RowView> {
    rows.map_values(|row: ListRow| row@)
}

impl View for Screen {
    type V = ScreenView;

    open spec fn view(&self) -> ScreenView {
        ScreenView {
            regions: self.regions,
            query: self.query@,
            rows: rows_of(self.rows@),
            selected: self.selected as nat,
            preview: self.preview@,
            footer: self.footer@,
            popup: text_of(self.popup),
        }
    }
}

/// The columns of a list row in a pane of `pane_width` columns: the pane
/// less its border, the highlight sign and a blank, five columns in all.
pub open spec fn list_width(pane_width: u16) -> nat {
    if pane_width > 5 {
        (pane_width - 5) as nat
    } else {
        0
    }
}

/// The rows the preview pane has room for inside its border.
pub open spec fn preview_room(pane_height: u16) -> nat {
    if pane_height > 2 {
        (pane_height - 2) as nat
    } else {
        0
    }
}

/// The creation date of row `i`: the `i`th label, or none where the labels
/// run out.
pub open spec fn label_at(labels: Seq<String>, i: int) -> Seq<char> {
    if 0 <= i < labels.len() {
        labels[i]@
    } else {
        Seq::empty()
    }
}

/// The rows of the list for `entries`.
pub open spec fn rows_for(entries: Seq<TryEntry>, labels: Seq<String>, now: i128, width: nat) -> Seq<
    RowView,
> {
    Seq::new(entries.len(), |i: int| row_of(entries[i], label_at(labels, i), now, width))
}

/// What the preview pane shows of `items`, the children found in the
/// directory of the entry under the cursor.
pub open spec fn preview_for(state: AppView, room: nat, items: Seq<(Seq<char>, bool)>) -> Option<
    Seq<(Seq<char>, bool)>,
> {
    if state.selected_name().is_none() {
        None
    } else if items.len() > room {
        Some(items.take(room as int))
    } else {
        Some(items)
    }
}

/// The prompt that asks whether `name` is to be removed.
pub open spec fn prompt_text(name: Seq<char>) -> Seq<char> {
    "Delete '"@ + name + "'? (y/n)"@
}

/// The confirmation prompt: open in `DeleteConfirm` mode, for the entry
/// under the cursor.
pub open spec fn prompt_for(state: AppView) -> Option<Seq<char>> {
    if state.mode == AppMode::DeleteConfirm && state.selected_name().is_some() {
        Some(prompt_text(state.selected_name().unwrap()))
    } else {
        None
    }
}

/// What the screen shows for `state`: the query, a row for each entry in
/// view with the cursor's row highlighted, the preview of the entry under
/// the cursor, the status message in place of the key help where there is
/// one, and the prompt while a removal waits for its answer.
pub open spec fn screen_for(
    state: AppView,
    regions: ScreenLayout,
    now: i128,
    labels: Seq<String>,
    items: Seq<(Seq<char>, bool)>,
) -> ScreenView {
    ScreenView {
        regions,
        query: state.query,
        rows: rows_for(state.filtered_entries, labels, now, list_width(regions.list.width)),
        selected: state.selected_index,
        preview: preview_for(state, preview_room(regions.preview.height), items),
        footer: state.status_message,
        popup: prompt_for(state),
    }
}

/// The number of children of the previewed directory that the pane can show.
pub fn preview_capacity(regions: &ScreenLayout) -> (room: usize)
    ensures
        room == preview_room(regions.preview.height),
{
    if regions.preview.height > 2 {
        (regions.preview.height - 2) as usize
    } else {
        0
    }
}

/// Projects the state onto the screen.
///
/// `labels` holds the creation dates of the entries in view, as they are to
/// be shown, in the order of the view; `items` holds the children that were
/// found in the directory of the entry under the cursor.
pub fn render(
    app: &App,
    regions: &ScreenLayout,
    now: i128,
    labels: &Vec<String>,
    items: Vec<PreviewItem>,
) -> (screen: Screen)
    ensures
        screen@ == screen_for(app@, *regions, now, labels@, items_of(items@)),
        screen.preview.wf(),
{
    let width: u16 = if regions.list.width > 5 {
        regions.list.width - 5
    } else {
        0
    };
    let mut rows: Vec<ListRow> = Vec::new();
    let mut i: usize = 0;
    while i < app.filtered_entries.len()
        invariant
            i <= app.filtered_entries@.len(),
            width == list_width(regions.list.width),
            rows@.len() == i,
            forall|k: int|
                0 <= k < i ==> (#[trigger] rows@[k])@ == row_of(
                    app.filtered_entries@[k],
                    label_at(labels@, k),
                    now,
                    width as nat,
                ),
        decreases app.filtered_entries@.len() - i,
    {
        let row = if i < labels.len() {
            list_row(&app.filtered_entries[i], labels[i].as_str(), now, width)
        } else {
            list_row(&app.filtered_entries[i], "", now, width)
        };
        proof {
            reveal_strlit("");
            assert(""@ =~= Seq::<char>::empty());
        }
        rows.push(row);
        i += 1;
    }
    assert(rows_of(rows@) =~= rows_for(
        app@.filtered_entries,
        labels@,
        now,
        list_width(regions.list.width),
    ));

    let has_selection = app.selected_index < app.filtered_entries.len();
    let mut items = items;
    let ghost given = items@;
    let preview = if !has_selection {
        Preview::NoSelection
    } else {
        let room = preview_capacity(regions);
        if items.len() > room {
            items.truncate(room);
            assert(items_of(items@) =~= items_of(given).take(room as int));
        }
        if items.len() == 0 {
            assert(items_of(items@) =~= Seq::empty());
            Preview::Empty
        } else {
            Preview::Items(items)
        }
    };

    let footer = match &app.status_message {
        Some(message) => Footer::Status(message.clone()),
        None => Footer::Help,
    };

    let popup = if app.mode == AppMode::DeleteConfirm && has_selection {
        let mut prompt = "Delete '".to_owned();
        prompt.append(app.filtered_entries[app.selected_index].name.as_str());
        prompt.append("'? (y/n)");
        Some(prompt)
    } else {
        None
    };

    Screen {
        regions: *regions,
        query: app.query.clone(),
        rows,
        selected: app.selected_index,
        preview,
        footer,
        popup,
    }
}

} // verus!
