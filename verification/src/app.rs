//! The selection state machine: the whole interactive state, and the
//! transitions that key presses and finished removals drive.

use crate::entry::{sort_descending, sorted_descending, SortKey, TryEntry};
use crate::rank::{lemma_rank_keeps_matches, lists_name, rank, ranked, stands_for_one_of};
use crate::theme::Theme;
use vstd::prelude::*;
use vstd::string::StringExecFns;

verus! {

/// What the keys mean at the moment.
#[derive(Clone, Copy, PartialEq, Eq, Structural, Debug)]
pub enum AppMode {
    /// Typing edits the query, the arrows move the cursor.
    Normal,
    /// A removal waits for its `y` or `n`.
    DeleteConfirm,
}

/// The key of a key press.
#[derive(Clone, Copy, PartialEq, Eq, Structural, Debug)]
pub enum KeyCode {
    Char(char),
    Backspace,
    Enter,
    Up,
    Down,
    Esc,
    /// Any key the selector has no use for.
    Other,
}

/// One key press: the key, and whether Control was held.
#[derive(Clone, Copy, PartialEq, Eq, Structural, Debug)]
pub struct KeyPress {
    pub code: KeyCode,
    pub ctrl: bool,
}

/// What a key press asks of the caller.
#[derive(Debug)]
pub enum Effect {
    /// Nothing: go on with the next key.
    Nothing,
    /// Remove the directory of this name below the root, then report how it
    /// went to [`App::delete_selected`].
    RemoveDir(String),
}

impl View for Effect {
    type V = Option<Seq<char>>;

    open spec fn view(&self) -> Option<Seq<char>> {
        match self {
            Effect::Nothing => None,
            Effect::RemoveDir(name) => Some(name@),
        }
    }
}

/// The interactive state.
pub struct App {
    /// What the user typed.
    pub query: String,
    /// Every directory found, most recently modified first.
    pub all_entries: Vec<TryEntry>,
    /// The view of `all_entries` under `query`.
    pub filtered_entries: Vec<TryEntry>,
    /// The cursor: an index into `filtered_entries`.
    pub selected_index: usize,
    /// Set when the session is over.
    pub should_quit: bool,
    /// The name that was chosen, if any.
    pub final_selection: Option<String>,
    pub mode: AppMode,
    /// Feedback for the user, shown until the query is next typed into.
    pub status_message: Option<String>,
    pub theme: Theme,
    /// The editor command, where one is configured.
    pub editor_cmd: Option<String>,
    /// Whether the chosen directory is to be opened in the editor.
    pub wants_editor: bool,
}

/// The state as a mathematical value.
pub struct AppView {
    pub query: Seq<char>,
    pub all_entries: Seq<TryEntry>,
    pub filtered_entries: Seq<TryEntry>,
    pub selected_index: nat,
    pub should_quit: bool,
    pub final_selection: Option<Seq<char>>,
    pub mode: AppMode,
    pub status_message: Option<Seq<char>>,
    pub theme: Theme,
    pub editor_cmd: Option<Seq<char>>,
    pub wants_editor: bool,
}

/// The characters of an optional string.
pub open spec fn text_of(s: Option<String>) -> Option<Seq<char>> {
    match s {
        Some(s) => Some(s@),
        None => None,
    }
}

impl View for App {
    type V = AppView;

    open spec fn view(&self) -> AppView {
        AppView {
            query: self.query@,
            all_entries: self.all_entries@,
            filtered_entries: self.filtered_entries@,
            selected_index: self.selected_index as nat,
            should_quit: self.should_quit,
            final_selection: text_of(self.final_selection),
            mode: self.mode,
            status_message: text_of(self.status_message),
            theme: self.theme,
            editor_cmd: text_of(self.editor_cmd),
            wants_editor: self.wants_editor,
        }
    }
}

impl AppView {
    /// The state a session starts in, over `entries` as they were found.
    pub open spec fn initial(
        entries: Seq<TryEntry>,
        theme: Theme,
        editor_cmd: Option<Seq<char>>,
    ) -> AppView {
        AppView {
            query: Seq::empty(),
            all_entries: sorted_descending(entries, SortKey::Modified),
            filtered_entries: sorted_descending(entries, SortKey::Modified),
            selected_index: 0,
            should_quit: false,
            final_selection: None,
            mode: AppMode::Normal,
            status_message: None,
            theme,
            editor_cmd,
            wants_editor: false,
        }
    }

    /// Whether the cursor points into the view, or rests at 0 on an empty one.
    pub open spec fn cursor_in_range(self) -> bool {
        self.selected_index < self.filtered_entries.len() || (self.filtered_entries.len() == 0
            && self.selected_index == 0)
    }

    /// Whether the view is what the query makes of the entries.
    pub open spec fn in_sync(self) -> bool {
        self.filtered_entries == ranked(self.all_entries, self.query)
    }

    /// The state after the view was made anew from the entries and the query.
    pub open spec fn searched(self) -> AppView {
        AppView {
            filtered_entries: ranked(self.all_entries, self.query),
            selected_index: 0,
            ..self
        }
    }

    /// The name under the cursor, if the cursor points at an entry.
    pub open spec fn selected_name(self) -> Option<Seq<char>> {
        if self.selected_index < self.filtered_entries.len() {
            Some(self.filtered_entries[self.selected_index as int].name@)
        } else {
            None
        }
    }

    /// What a confirmation chooses: the entry under the cursor where the view
    /// has entries, else the query as a new name, and nothing where both are empty.
    pub open spec fn choice(self) -> Option<Seq<char>> {
        if self.filtered_entries.len() > 0 {
            Some(self.filtered_entries[self.selected_index as int].name@)
        } else if self.query.len() > 0 {
            Some(self.query)
        } else {
            None
        }
    }

    /// The state after a confirmation: the session ends with the choice, or,
    /// where there is nothing to choose, goes on unchanged.
    pub open spec fn confirmed(self, in_editor: bool) -> AppView {
        match self.choice() {
            Some(name) => AppView {
                final_selection: Some(name),
                wants_editor: in_editor || self.wants_editor,
                should_quit: true,
                ..self
            },
            None => self,
        }
    }

    /// The state after `key` in `Normal` mode.
    pub open spec fn after_key_normal(self, key: KeyPress) -> AppView {
        match key.code {
            KeyCode::Char(c) => {
                if c == 'c' && key.ctrl {
                    AppView { should_quit: true, ..self }
                } else if c == 'd' && key.ctrl {
                    if self.filtered_entries.len() > 0 {
                        AppView { mode: AppMode::DeleteConfirm, ..self }
                    } else {
                        self
                    }
                } else if c == 'e' && key.ctrl {
                    if self.editor_cmd.is_some() {
                        self.confirmed(true)
                    } else {
                        AppView {
                            status_message: Some("No editor configured in config.toml"@),
                            ..self
                        }
                    }
                } else {
                    AppView { query: self.query.push(c), status_message: None, ..self }.searched()
                }
            },
            KeyCode::Backspace => AppView {
                query: if self.query.len() > 0 {
                    self.query.drop_last()
                } else {
                    self.query
                },
                ..self
            }.searched(),
            KeyCode::Up => AppView {
                selected_index: if self.selected_index > 0 {
                    (self.selected_index - 1) as nat
                } else {
                    self.selected_index
                },
                ..self
            },
            KeyCode::Down => AppView {
                selected_index: if self.selected_index + 1 < self.filtered_entries.len() {
                    self.selected_index + 1
                } else {
                    self.selected_index
                },
                ..self
            },
            KeyCode::Enter => self.confirmed(false),
            KeyCode::Esc => AppView { should_quit: true, ..self },
            KeyCode::Other => self,
        }
    }

    /// Whether `key` affirms the pending removal.
    pub open spec fn affirms(key: KeyPress) -> bool {
        key.code == KeyCode::Char('y') || key.code == KeyCode::Char('Y')
    }

    /// Whether `key` declines the pending removal.
    pub open spec fn declines(key: KeyPress) -> bool {
        key.code == KeyCode::Char('n') || key.code == KeyCode::Char('N') || key.code
            == KeyCode::Esc
    }

    /// The state after `key` in `DeleteConfirm` mode. An affirmed removal
    /// leaves the state as it is until its outcome is reported; where the
    /// cursor points at nothing there is nothing to remove.
    pub open spec fn after_key_confirm(self, key: KeyPress) -> AppView {
        if Self::affirms(key) {
            if self.selected_name().is_some() {
                self
            } else {
                AppView { mode: AppMode::Normal, ..self }
            }
        } else if Self::declines(key) {
            AppView { mode: AppMode::Normal, ..self }
        } else if key.code == KeyCode::Char('c') && key.ctrl {
            AppView { should_quit: true, ..self }
        } else {
            self
        }
    }

    /// The state after `key`.
    pub open spec fn after_key(self, key: KeyPress) -> AppView {
        match self.mode {
            AppMode::Normal => self.after_key_normal(key),
            AppMode::DeleteConfirm => self.after_key_confirm(key),
        }
    }

    /// The directory that `key` asks to have removed, if any.
    pub open spec fn removal_asked(self, key: KeyPress) -> Option<Seq<char>> {
        if self.mode == AppMode::DeleteConfirm && Self::affirms(key) {
            self.selected_name()
        } else {
            None
        }
    }

    /// The entries without those named `name`.
    pub open spec fn without(entries: Seq<TryEntry>, name: Seq<char>) -> Seq<TryEntry> {
        entries.filter(|e: TryEntry| e.name@ != name)
    }

    /// The state after the removal of the entry under the cursor was tried.
    /// `Ok` carries the path that was removed, `Err` what went wrong. Only a
    /// removal that succeeded takes the entry off the list; either way the
    /// outcome becomes the status message and the mode is `Normal` again.
    pub open spec fn after_removal(self, outcome: Result<Seq<char>, Seq<char>>) -> AppView {
        match self.selected_name() {
            None => AppView { mode: AppMode::Normal, ..self },
            Some(name) => match outcome {
                Ok(path) => AppView {
                    status_message: Some("Deleted: "@ + path),
                    mode: AppMode::Normal,
                    ..AppView {
                        all_entries: Self::without(self.all_entries, name),
                        ..self
                    }.searched()
                },
                Err(error) => AppView {
                    status_message: Some("Error deleting: "@ + error),
                    mode: AppMode::Normal,
                    ..self
                },
            },
        }
    }
}

/// Whether no two of `entries` share a name.
pub open spec fn names_distinct(entries: Seq<TryEntry>) -> bool {
    forall|i: int, j: int|
        0 <= i < j < entries.len() ==> (#[trigger] entries[i]).name@ != (#[trigger] entries[j]).name@
}

/// Every entry in view is, by its name, one of the entries it was made from.
pub proof fn lemma_view_within_entries(entries: Seq<TryEntry>, query: Seq<char>)
    ensures
        forall|k: int|
            0 <= k < ranked(entries, query).len() ==> lists_name(
                entries,
                (#[trigger] ranked(entries, query)[k]).name@,
            ),
{
    let view = ranked(entries, query);
    if query.len() > 0 {
        lemma_rank_keeps_matches(entries, query);
    }
    assert forall|k: int| 0 <= k < view.len() implies lists_name(
        entries,
        (#[trigger] view[k]).name@,
    ) by {
        if query.len() > 0 {
            assert(stands_for_one_of(view[k], entries, query));
        }
    }
}

/// The cursor never leaves the view: whatever the key, a cursor in range is
/// in range afterwards. Up stops at the first row and Down at the last.
pub proof fn lemma_cursor_stays_in_range(state: AppView, key: KeyPress)
    requires
        state.cursor_in_range(),
    ensures
        state.after_key(key).cursor_in_range(),
        state.mode == AppMode::Normal && key.code == KeyCode::Up ==> state.after_key(
            key,
        ).selected_index == if state.selected_index == 0 {
            0int
        } else {
            state.selected_index as int - 1
        },
        state.mode == AppMode::Normal && key.code == KeyCode::Down ==> state.after_key(
            key,
        ).selected_index == if state.selected_index + 1 >= state.filtered_entries.len() {
            state.selected_index as int
        } else {
            state.selected_index as int + 1
        },
{
}

/// The cursor is in range after a removal too, and the view stays what the
/// query makes of the entries.
pub proof fn lemma_removal_keeps_invariants(state: AppView, outcome: Result<Seq<char>, Seq<char>>)
    requires
        state.cursor_in_range(),
    ensures
        state.after_removal(outcome).cursor_in_range(),
        state.after_removal(outcome).mode == AppMode::Normal,
        state.in_sync() ==> state.after_removal(outcome).in_sync(),
{
}

/// Whatever came before, a key leaves the view in step with the query.
pub proof fn lemma_key_keeps_sync(state: AppView, key: KeyPress)
    requires
        state.in_sync(),
    ensures
        state.after_key(key).in_sync(),
{
}

/// To confirm on a view that has entries chooses the name under the cursor,
/// never the query, and ends the session.
pub proof fn lemma_confirm_chooses_selected(state: AppView, ctrl: bool)
    requires
        state.mode == AppMode::Normal,
        state.filtered_entries.len() > 0,
        state.cursor_in_range(),
    ensures
        state.after_key(KeyPress { code: KeyCode::Enter, ctrl }).final_selection == Some(
            state.filtered_entries[state.selected_index as int].name@,
        ),
        state.after_key(KeyPress { code: KeyCode::Enter, ctrl }).should_quit,
        state.after_key(KeyPress { code: KeyCode::Enter, ctrl }).wants_editor
            == state.wants_editor,
{
}

/// To confirm on an empty view takes the query as a new name; with an empty
/// query too, nothing happens.
pub proof fn lemma_confirm_on_empty_view(state: AppView, ctrl: bool)
    requires
        state.mode == AppMode::Normal,
        state.filtered_entries.len() == 0,
    ensures
        state.query.len() > 0 ==> state.after_key(
            KeyPress { code: KeyCode::Enter, ctrl },
        ).final_selection == Some(state.query) && state.after_key(
            KeyPress { code: KeyCode::Enter, ctrl },
        ).should_quit,
        state.query.len() == 0 ==> state.after_key(KeyPress { code: KeyCode::Enter, ctrl })
            == state,
{
}

/// Entries that do not carry `name` are all kept.
proof fn lemma_without_absent(entries: Seq<TryEntry>, name: Seq<char>)
    requires
        !lists_name(entries, name),
    ensures
        AppView::without(entries, name) == entries,
    decreases entries.len(),
{
    reveal(Seq::filter);
    if entries.len() > 0 {
        let rest = entries.drop_last();
        assert forall|k: int| 0 <= k < rest.len() implies (#[trigger] rest[k]).name@ != name by {
            assert(rest[k] == entries[k]);
        }
        lemma_without_absent(rest, name);
        assert(entries[entries.len() - 1].name@ != name);
        assert(rest.push(entries.last()) =~= entries);
    }
}

/// What is left carries other names, and was there before.
proof fn lemma_without_keeps_others(entries: Seq<TryEntry>, name: Seq<char>)
    ensures
        AppView::without(entries, name).len() <= entries.len(),
        !lists_name(AppView::without(entries, name), name),
        forall|k: int|
            0 <= k < AppView::without(entries, name).len() ==> entries.contains(
                #[trigger] AppView::without(entries, name)[k],
            ),
        names_distinct(entries) ==> names_distinct(AppView::without(entries, name)),
    decreases entries.len(),
{
    reveal(Seq::filter);
    let left = AppView::without(entries, name);
    if entries.len() > 0 {
        let rest = entries.drop_last();
        let inner = AppView::without(rest, name);
        lemma_without_keeps_others(rest, name);
        assert forall|k: int| 0 <= k < left.len() implies entries.contains(#[trigger] left[k]) by {
            if k < inner.len() {
                assert(left[k] == inner[k]);
                let m = choose|m: int| 0 <= m < rest.len() && rest[m] == inner[k];
                assert(entries[m] == left[k]);
            } else {
                assert(entries[entries.len() - 1] == left[k]);
            }
        }
        assert forall|k: int| 0 <= k < left.len() implies (#[trigger] left[k]).name@ != name by {
            if k < inner.len() {
                assert(left[k] == inner[k]);
            }
        }
        if names_distinct(entries) {
            assert forall|i: int, j: int| 0 <= i < j < rest.len() implies (#[trigger] rest[i]).name@
                != (#[trigger] rest[j]).name@ by {
                assert(rest[i] == entries[i] && rest[j] == entries[j]);
            }
            assert forall|i: int, j: int| 0 <= i < j < left.len() implies (#[trigger] left[i]).name@
                != (#[trigger] left[j]).name@ by {
                if j < inner.len() {
                    assert(left[i] == inner[i] && left[j] == inner[j]);
                } else {
                    assert(left[i] == inner[i]);
                    let m = choose|m: int| 0 <= m < rest.len() && rest[m] == inner[i];
                    assert(entries[m] == left[i]);
                    assert(entries[entries.len() - 1] == left[j]);
                }
            }
        }
    }
}

/// Among entries of distinct names, taking one name out takes one entry out.
proof fn lemma_without_present(entries: Seq<TryEntry>, name: Seq<char>)
    requires
        names_distinct(entries),
        lists_name(entries, name),
    ensures
        AppView::without(entries, name).len() + 1 == entries.len(),
    decreases entries.len(),
{
    reveal(Seq::filter);
    let rest = entries.drop_last();
    let last = entries.last();
    assert forall|i: int, j: int| 0 <= i < j < rest.len() implies (#[trigger] rest[i]).name@ != (
    #[trigger] rest[j]).name@ by {
        assert(rest[i] == entries[i] && rest[j] == entries[j]);
    }
    if last.name@ == name {
        assert forall|k: int| 0 <= k < rest.len() implies (#[trigger] rest[k]).name@ != name by {
            assert(rest[k] == entries[k]);
            assert(entries[entries.len() - 1] == last);
        }
        lemma_without_absent(rest, name);
    } else {
        let k = choose|k: int| 0 <= k < entries.len() && (#[trigger] entries[k]).name@ == name;
        assert(rest[k] == entries[k]);
        lemma_without_present(rest, name);
    }
}

/// A removal that succeeded takes exactly one entry off the list, the one
/// under the cursor, and every entry still in view is still on the list.
pub proof fn lemma_removal_takes_one_entry(state: AppView, path: Seq<char>)
    requires
        state.in_sync(),
        state.selected_index < state.filtered_entries.len(),
        names_distinct(state.all_entries),
    ensures
        state.after_removal(Ok(path)).all_entries.len() + 1 == state.all_entries.len(),
        !lists_name(
            state.after_removal(Ok(path)).all_entries,
            state.filtered_entries[state.selected_index as int].name@,
        ),
        forall|k: int|
            0 <= k < state.after_removal(Ok(path)).all_entries.len() ==> state.all_entries.contains(
                #[trigger] state.after_removal(Ok(path)).all_entries[k],
            ),
        names_distinct(state.after_removal(Ok(path)).all_entries),
        state.after_removal(Ok(path)).filtered_entries.len() <= state.after_removal(
            Ok(path),
        ).all_entries.len(),
        forall|k: int|
            0 <= k < state.after_removal(Ok(path)).filtered_entries.len() ==> lists_name(
                state.after_removal(Ok(path)).all_entries,
                (#[trigger] state.after_removal(Ok(path)).filtered_entries[k]).name@,
            ),
        state.after_removal(Ok(path)).status_message == Some("Deleted: "@ + path),
{
    let name = state.filtered_entries[state.selected_index as int].name@;
    let after = state.after_removal(Ok(path));
    lemma_view_within_entries(state.all_entries, state.query);
    lemma_without_present(state.all_entries, name);
    lemma_without_keeps_others(state.all_entries, name);
    lemma_view_within_entries(after.all_entries, after.query);
    if after.query.len() > 0 {
        lemma_rank_keeps_matches(after.all_entries, after.query);
    }
}

/// A removal that failed leaves the entries and the view as they were, and
/// tells the user why.
pub proof fn lemma_failed_removal_keeps_entries(state: AppView, error: Seq<char>)
    requires
        state.selected_index < state.filtered_entries.len(),
    ensures
        state.after_removal(Err(error)).all_entries == state.all_entries,
        state.after_removal(Err(error)).filtered_entries == state.filtered_entries,
        state.after_removal(Err(error)).selected_index == state.selected_index,
        state.after_removal(Err(error)).mode == AppMode::Normal,
        state.after_removal(Err(error)).status_message == Some("Error deleting: "@ + error),
        state.after_removal(Err(error)).status_message.unwrap().len() > 0,
{
    reveal_strlit("Error deleting: ");
}

/// The outcome of a removal as a mathematical value.
pub open spec fn outcome_of(outcome: Result<String, String>) -> Result<Seq<char>, Seq<char>> {
    match outcome {
        Ok(path) => Ok(path@),
        Err(error) => Err(error@),
    }
}

/// Takes the entries named `name` out of `entries`.
fn remove_named(entries: &mut Vec<TryEntry>, name: &String)
    ensures
        final(entries)@ == AppView::without(old(entries)@, name@),
{
    let ghost given = entries@;
    let ghost mut seen: int = 0;
    let mut i: usize = 0;
    assert(entries@.take(0) =~= AppView::without(given.take(0), name@)) by {
        reveal(Seq::filter);
    }
    assert(entries@.skip(0) =~= given.skip(0));
    while i < entries.len()
        invariant
            i <= entries@.len(),
            0 <= seen <= given.len(),
            entries@.len() - i == given.len() - seen,
            entries@.take(i as int) == AppView::without(given.take(seen), name@),
            entries@.skip(i as int) == given.skip(seen),
        decreases entries@.len() - i,
    {
        let ghost before = entries@;
        assert(before[i as int] == before.skip(i as int)[0]);
        assert(given.take(seen + 1).drop_last() =~= given.take(seen));
        assert(given.take(seen + 1).last() == given[seen]);
        proof {
            reveal(Seq::filter);
        }
        if entries[i].name == *name {
            entries.remove(i);
            assert(entries@.take(i as int) =~= before.take(i as int));
            assert(entries@.skip(i as int) =~= before.skip(i as int).skip(1));
            assert(given.skip(seen).skip(1) =~= given.skip(seen + 1));
        } else {
            assert(before.take(i + 1) =~= before.take(i as int).push(before[i as int]));
            assert(before.skip(i + 1) =~= before.skip(i as int).skip(1));
            assert(given.skip(seen).skip(1) =~= given.skip(seen + 1));
            i += 1;
        }
        proof {
            seen = seen + 1;
        }
    }
    assert(entries@.take(i as int) =~= entries@);
    assert(given.take(seen) =~= given);
}

impl App {
    /// Starts a session over `entries` as a scan found them: they are put in
    /// order, most recently modified first, and all of them are in view.
    pub fn new(entries: Vec<TryEntry>, theme: Theme, editor_cmd: Option<String>) -> (app: App)
        ensures
            app@ == AppView::initial(entries@, theme, text_of(editor_cmd)),
            app@.cursor_in_range(),
            app@.in_sync(),
    {
        let mut all_entries = entries;
        sort_descending(&mut all_entries, SortKey::Modified);
        let query = String::new();
        let filtered_entries = rank(&all_entries, query.as_str());
        App {
            query,
            all_entries,
            filtered_entries,
            selected_index: 0,
            should_quit: false,
            final_selection: None,
            mode: AppMode::Normal,
            status_message: None,
            theme,
            editor_cmd,
            wants_editor: false,
        }
    }

    /// Whether the cursor points into the view, or rests at 0 on an empty one.
    pub fn cursor_is_valid(&self) -> (valid: bool)
        ensures
            valid == self@.cursor_in_range(),
    {
        self.selected_index < self.filtered_entries.len() || (self.filtered_entries.len() == 0
            && self.selected_index == 0)
    }

    /// The name under the cursor, if the cursor points at an entry.
    pub fn selected_name(&self) -> (name: Option<String>)
        ensures
            text_of(name) == self@.selected_name(),
    {
        if self.selected_index < self.filtered_entries.len() {
            Some(self.filtered_entries[self.selected_index].name.clone())
        } else {
            None
        }
    }

    /// Makes the view anew from the entries and the query, and puts the
    /// cursor on its first row.
    pub fn update_search(&mut self)
        ensures
            final(self)@ == old(self)@.searched(),
            final(self)@.cursor_in_range(),
            final(self)@.in_sync(),
    {
        self.filtered_entries = rank(&self.all_entries, self.query.as_str());
        self.selected_index = 0;
    }

    /// Ends the session with the choice, if there is anything to choose.
    fn confirm(&mut self, in_editor: bool)
        requires
            old(self)@.cursor_in_range(),
        ensures
            final(self)@ == old(self)@.confirmed(in_editor),
    {
        if self.filtered_entries.len() > 0 {
            self.final_selection = Some(self.filtered_entries[self.selected_index].name.clone());
        } else if !self.query.as_str().is_empty() {
            self.final_selection = Some(self.query.clone());
        } else {
            return ;
        }
        if in_editor {
            self.wants_editor = true;
        }
        self.should_quit = true;
    }

    /// Applies `key` in `Normal` mode.
    fn handle_key_normal(&mut self, key: KeyPress)
        requires
            old(self)@.cursor_in_range(),
        ensures
            final(self)@ == old(self)@.after_key_normal(key),
    {
        match key.code {
            KeyCode::Char(c) => {
                if c == 'c' && key.ctrl {
                    self.should_quit = true;
                } else if c == 'd' && key.ctrl {
                    if self.filtered_entries.len() > 0 {
                        self.mode = AppMode::DeleteConfirm;
                    }
                } else if c == 'e' && key.ctrl {
                    if self.editor_cmd.is_some() {
                        self.confirm(true);
                    } else {
                        self.status_message = Some(
                            "No editor configured in config.toml".to_owned(),
                        );
                    }
                } else {
                    self.query.push(c);
                    self.status_message = None;
                    self.update_search();
                }
            },
            KeyCode::Backspace => {
                self.query.pop();
                self.update_search();
            },
            KeyCode::Up => {
                if self.selected_index > 0 {
                    self.selected_index -= 1;
                }
            },
            KeyCode::Down => {
                if self.filtered_entries.len() > 0 && self.selected_index
                    < self.filtered_entries.len() - 1 {
                    self.selected_index += 1;
                }
            },
            KeyCode::Enter => {
                self.confirm(false);
            },
            KeyCode::Esc => {
                self.should_quit = true;
            },
            KeyCode::Other => {},
        }
    }

    /// Applies one key press and says what it asks of the caller.
    ///
    /// The keys of `Normal` mode: a character is added to the query, and
    /// Backspace takes the last one off; Up and Down move the cursor within
    /// the view; Enter chooses; Escape and Ctrl-C end the session without a
    /// choice; Ctrl-D asks for the removal of the entry under the cursor;
    /// Ctrl-E chooses for the editor. In `DeleteConfirm` mode `y` affirms,
    /// `n` and Escape decline, Ctrl-C ends the session, all else is ignored.
    pub fn handle_key(&mut self, key: KeyPress) -> (effect: Effect)
        requires
            old(self)@.cursor_in_range(),
        ensures
            final(self)@ == old(self)@.after_key(key),
            effect@ == old(self)@.removal_asked(key),
            final(self)@.cursor_in_range(),
            old(self)@.in_sync() ==> final(self)@.in_sync(),
    {
        match self.mode {
            AppMode::Normal => {
                self.handle_key_normal(key);
                Effect::Nothing
            },
            AppMode::DeleteConfirm => {
                let affirmed = match key.code {
                    KeyCode::Char(c) => c == 'y' || c == 'Y',
                    _ => false,
                };
                let declined = match key.code {
                    KeyCode::Char(c) => c == 'n' || c == 'N',
                    KeyCode::Esc => true,
                    _ => false,
                };
                let quits = match key.code {
                    KeyCode::Char(c) => c == 'c' && key.ctrl,
                    _ => false,
                };
                if affirmed {
                    if self.selected_index < self.filtered_entries.len() {
                        Effect::RemoveDir(self.filtered_entries[self.selected_index].name.clone())
                    } else {
                        self.mode = AppMode::Normal;
                        Effect::Nothing
                    }
                } else if declined {
                    self.mode = AppMode::Normal;
                    Effect::Nothing
                } else {
                    if quits {
                        self.should_quit = true;
                    }
                    Effect::Nothing
                }
            },
        }
    }

    /// Takes in the outcome of the removal that [`Effect::RemoveDir`] asked
    /// for: `Ok` with the path that was removed, or `Err` with the reason it
    /// could not be.
    pub fn delete_selected(&mut self, outcome: Result<String, String>)
        requires
            old(self)@.cursor_in_range(),
        ensures
            final(self)@ == old(self)@.after_removal(outcome_of(outcome)),
            final(self)@.cursor_in_range(),
            old(self)@.in_sync() ==> final(self)@.in_sync(),
    {
        if self.selected_index < self.filtered_entries.len() {
            let name = self.filtered_entries[self.selected_index].name.clone();
            match outcome {
                Ok(path) => {
                    remove_named(&mut self.all_entries, &name);
                    self.update_search();
                    let mut message = "Deleted: ".to_owned();
                    message.append(path.as_str());
                    self.status_message = Some(message);
                },
                Err(error) => {
                    let mut message = "Error deleting: ".to_owned();
                    message.append(error.as_str());
                    self.status_message = Some(message);
                },
            }
        }
        self.mode = AppMode::Normal;
    }

    /// What the session ended with: the chosen name, if any, and whether it
    /// is to be opened in the editor.
    pub fn into_result(self) -> (result: (Option<String>, bool))
        ensures
            text_of(result.0) == self@.final_selection,
            result.1 == self@.wants_editor,
    {
        (self.final_selection, self.wants_editor)
    }
}

} // verus!
