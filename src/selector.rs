use vstd::prelude::*;

use crate::keys::Command;
use crate::render::{viewport_height_for_rows, viewport_height_of};
use crate::terminal::terminal_dimensions;

verus! {

/// One entry of the list: its text, shown as given, and whether it is chosen.
pub struct Line {
    content: String,
    is_selected: bool,
}

/// What a `Line` stands for.
pub struct LineModel {
    pub content: Seq<char>,
    pub is_selected: bool,
}

impl View for Line {
    type V = LineModel;

    closed spec fn view(&self) -> LineModel {
        LineModel { content: self.content@, is_selected: self.is_selected }
    }
}

/// What a `SelectorState` stands for: the lines, the cursor, the first line
/// of the scroll window and the number of lines the window shows.
pub struct SelectorModel {
    pub lines: Seq<LineModel>,
    pub cursor: int,
    pub top: int,
    pub height: int,
}

/// The largest first line of a window of `height` lines over `len` lines:
/// the window never shows fewer lines than it can hold.
pub open spec fn max_top(len: int, height: int) -> int {
    if len > height {
        len - height
    } else {
        0
    }
}

impl SelectorModel {
    /// The cursor is on a line (or at 0 on an empty list), the window shows
    /// the cursor, and it does not scroll past the end of the list.
    pub open spec fn wf(self) -> bool {
        &&& self.height >= 1
        &&& if self.lines.len() == 0 {
            self.cursor == 0
        } else {
            self.cursor < self.lines.len()
        }
        &&& 0 <= self.top <= self.cursor < self.top + self.height
        &&& self.top <= max_top(self.lines.len() as int, self.height)
    }

    /// One line down, from the last line to the first; the window follows
    /// one line at a time and goes back to the top on the wrap.
    pub open spec fn move_down(self) -> SelectorModel {
        let len = self.lines.len() as int;
        if len == 0 {
            self
        } else if self.cursor + 1 == len {
            SelectorModel { cursor: 0, top: 0, ..self }
        } else if self.cursor + 1 >= self.top + self.height {
            SelectorModel { cursor: self.cursor + 1, top: self.top + 1, ..self }
        } else {
            SelectorModel { cursor: self.cursor + 1, ..self }
        }
    }

    /// One line up, from the first line to the last; the window follows one
    /// line at a time and shows the end of the list on the wrap.
    pub open spec fn move_up(self) -> SelectorModel {
        let len = self.lines.len() as int;
        if len == 0 {
            self
        } else if self.cursor == 0 {
            SelectorModel { cursor: len - 1, top: max_top(len, self.height), ..self }
        } else if self.cursor - 1 < self.top {
            SelectorModel { cursor: self.cursor - 1, top: self.top - 1, ..self }
        } else {
            SelectorModel { cursor: self.cursor - 1, ..self }
        }
    }

    /// Flips the mark of line `i`, leaving everything else as it was.
    pub open spec fn toggle_at(self, i: int) -> SelectorModel {
        if 0 <= i < self.lines.len() {
            let l = self.lines[i];
            SelectorModel {
                lines: self.lines.update(
                    i,
                    LineModel { content: l.content, is_selected: !l.is_selected },
                ),
                ..self
            }
        } else {
            self
        }
    }

    /// Flips the mark of the line under the cursor.
    pub open spec fn toggle(self) -> SelectorModel {
        self.toggle_at(self.cursor)
    }

    /// The state after `cmd`.
    pub open spec fn step(self, cmd: Command) -> SelectorModel {
        match cmd {
            Command::MoveUp => self.move_up(),
            Command::MoveDown => self.move_down(),
            Command::ToggleSelect => self.toggle(),
            _ => self,
        }
    }

    /// The result of `cmd`.
    pub open spec fn outcome(self, cmd: Command) -> OutcomeModel {
        match cmd {
            Command::Confirm => OutcomeModel::Finished(selected_contents(self.lines)),
            Command::Cancel => OutcomeModel::Cancelled { forced: false },
            Command::ForceQuit => OutcomeModel::Cancelled { forced: true },
            _ => OutcomeModel::Continue,
        }
    }

    /// The state after each command of `cmds` in turn.
    pub open spec fn run(self, cmds: Seq<Command>) -> SelectorModel
        decreases cmds.len(),
    {
        if cmds.len() == 0 {
            self
        } else {
            self.step(cmds[0]).run(cmds.drop_first())
        }
    }

    /// The window's first line after the window is resized to `height`: the
    /// nearest to the old one that shows the cursor and does not scroll past
    /// the end.
    pub open spec fn resized(self, height: int) -> SelectorModel {
        let lo = if self.cursor + 1 > height {
            self.cursor + 1 - height
        } else {
            0
        };
        let mt = max_top(self.lines.len() as int, height);
        let hi = if self.cursor < mt {
            self.cursor
        } else {
            mt
        };
        let top = if self.top < lo {
            lo
        } else if self.top > hi {
            hi
        } else {
            self.top
        };
        SelectorModel { top, height, ..self }
    }

    /// The index of the last line the window shows, plus one.
    pub open spec fn window_end(self) -> int {
        if self.top + self.height < self.lines.len() {
            self.top + self.height
        } else {
            self.lines.len() as int
        }
    }
}

/// The texts of the marked lines, in the order of the list.
pub open spec fn selected_contents(lines: Seq<LineModel>) -> Seq<Seq<char>> {
    lines.filter(|l: LineModel| l.is_selected).map_values(|l: LineModel| l.content)
}

/// Extending a prefix of the list by one line adds that line's text to the
/// chosen ones exactly when it is marked.
pub proof fn lemma_selected_contents_take(lines: Seq<LineModel>, i: int)
    requires
        0 <= i < lines.len(),
    ensures
        selected_contents(lines.take(i + 1)) == if lines[i].is_selected {
            selected_contents(lines.take(i)).push(lines[i].content)
        } else {
            selected_contents(lines.take(i))
        },
{
    let t = lines.take(i + 1);
    assert(t.drop_last() =~= lines.take(i));
    reveal(Seq::filter);
    let f = lines.take(i).filter(|l: LineModel| l.is_selected);
    if lines[i].is_selected {
        assert(t.filter(|l: LineModel| l.is_selected) == f.push(lines[i]));
        assert(f.push(lines[i]).map_values(|l: LineModel| l.content) =~= f.map_values(
            |l: LineModel| l.content,
        ).push(lines[i].content));
    } else {
        assert(t.filter(|l: LineModel| l.is_selected) == f);
    }
}

/// The state a session starts in: nothing marked, the cursor and the window
/// at the first line.
pub open spec fn initial(texts: Seq<Seq<char>>, height: int) -> SelectorModel {
    SelectorModel {
        lines: texts.map_values(|t: Seq<char>| LineModel { content: t, is_selected: false }),
        cursor: 0,
        top: 0,
        height,
    }
}

/// How a line is shown: a cursor mark, the selection box, then the text.
pub open spec fn format_line(l: LineModel, at_cursor: bool) -> Seq<char> {
    seq![
        if at_cursor { '>' } else { ' ' },
        ' ',
        '[',
        if l.is_selected { '*' } else { ' ' },
        ']',
        ' ',
    ] + l.content
}

impl SelectorModel {
    /// The lines the window shows, as they are printed.
    pub open spec fn display_lines(self) -> Seq<Seq<char>> {
        Seq::new(
            (self.window_end() - self.top) as nat,
            |k: int| format_line(self.lines[self.top + k], self.top + k == self.cursor),
        )
    }
}

/// The result of applying one command to the selector.
#[derive(Debug, PartialEq, Eq)]
pub enum Outcome {
    /// The session goes on.
    Continue,
    /// The user confirmed: the texts of the marked lines, in list order.
    Finished(Vec<String>),
    /// The user left without choosing; `forced` is set for an interrupt.
    Cancelled { forced: bool },
}

/// What an `Outcome` stands for.
pub enum OutcomeModel {
    Continue,
    Finished(Seq<Seq<char>>),
    Cancelled { forced: bool },
}

impl View for Outcome {
    type V = OutcomeModel;

    open spec fn view(&self) -> OutcomeModel {
        match self {
            Outcome::Continue => OutcomeModel::Continue,
            Outcome::Finished(v) => OutcomeModel::Finished(v@.map_values(|s: String| s@)),
            Outcome::Cancelled { forced } => OutcomeModel::Cancelled { forced: *forced },
        }
    }
}

/// The exit status that goes with an outcome: 130, the usual status of an
/// interrupt, for a forced quit, 0 otherwise.
pub open spec fn exit_code_of(o: OutcomeModel) -> i32 {
    match o {
        OutcomeModel::Cancelled { forced: true } => 130,
        _ => 0,
    }
}

/// The texts of the lines of an outcome: the chosen ones, or none.
pub open spec fn selection_of(o: OutcomeModel) -> Seq<Seq<char>> {
    match o {
        OutcomeModel::Finished(s) => s,
        _ => Seq::empty(),
    }
}

impl Outcome {
    /// The process exit status for this outcome.
    pub fn exit_code(&self) -> (r: i32)
        ensures
            r == exit_code_of(self@),
    {
        match self {
            Outcome::Cancelled { forced: true } => 130,
            _ => 0,
        }
    }

    /// The chosen texts; empty unless the user confirmed.
    pub fn into_selection(self) -> (r: Vec<String>)
        ensures
            r@.map_values(|s: String| s@) == selection_of(self@),
    {
        match self {
            Outcome::Finished(v) => v,
            _ => Vec::new(),
        }
    }
}

/// The selector: its lines, the cursor, and the scroll window.
pub struct SelectorState {
    lines: Vec<Line>,
    selector_index: usize,
    top_of_screen_index: usize,
    viewport_height: usize,
}

impl View for SelectorState {
    type V = SelectorModel;

    closed spec fn view(&self) -> SelectorModel {
        SelectorModel {
            lines: self.lines@.map_values(|l: Line| l@),
            cursor: self.selector_index as int,
            top: self.top_of_screen_index as int,
            height: self.viewport_height as int,
        }
    }
}

impl Line {
    /// The text of the line.
    pub fn content(&self) -> (r: &String)
        ensures
            r@ == self@.content,
    {
        &self.content
    }

    /// Whether the line is marked.
    pub fn is_selected(&self) -> (r: bool)
        ensures
            r == self@.is_selected,
    {
        self.is_selected
    }
}

/// The text of one shown line.
fn format_line_exec(line: &Line, at_cursor: bool) -> (r: String)
    ensures
        r@ == format_line(line@, at_cursor),
{
    let prefix: &str = if at_cursor {
        if line.is_selected {
            "> [*] "
        } else {
            "> [ ] "
        }
    } else {
        if line.is_selected {
            "  [*] "
        } else {
            "  [ ] "
        }
    };
    proof {
        reveal_strlit("> [*] ");
        reveal_strlit("> [ ] ");
        reveal_strlit("  [*] ");
        reveal_strlit("  [ ] ");
    }
    let mut r = String::from_str(prefix);
    r.append(line.content.as_str());
    assert(r@ =~= format_line(line@, at_cursor));
    r
}

/// Turns each string into an unmarked line.
pub fn marshal_strings_into_lines(strings: Vec<String>) -> (r: Vec<Line>)
    ensures
        r@.len() == strings@.len(),
        forall|i: int|
            0 <= i < r@.len() ==> #[trigger] r@[i]@ == (LineModel {
                content: strings@[i]@,
                is_selected: false,
            }),
{
    let mut r: Vec<Line> = Vec::new();
    let mut i: usize = 0;
    while i < strings.len()
        invariant
            i <= strings@.len(),
            r@.len() == i,
            forall|j: int|
                0 <= j < i ==> #[trigger] r@[j]@ == (LineModel {
                    content: strings@[j]@,
                    is_selected: false,
                }),
        decreases strings@.len() - i,
    {
        r.push(Line { content: strings[i].clone(), is_selected: false });
        i = i + 1;
    }
    r
}

impl SelectorState {
    /// The well-formedness of the state.
    pub open spec fn wf(&self) -> bool {
        self@.wf()
    }

    /// A selector over `strings`, none marked, the cursor and the window at
    /// the first line; the window shows `viewport_height` lines.
    pub fn new(strings: Vec<String>, viewport_height: usize) -> (s: SelectorState)
        requires
            viewport_height >= 1,
        ensures
            s.wf(),
            s@ == initial(strings@.map_values(|t: String| t@), viewport_height as int),
    {
        let lines = marshal_strings_into_lines(strings);
        let s = SelectorState {
            lines,
            selector_index: 0,
            top_of_screen_index: 0,
            viewport_height,
        };
        assert(s@.lines =~= initial(
            strings@.map_values(|t: String| t@),
            viewport_height as int,
        ).lines);
        s
    }

    /// Number of lines.
    pub fn len(&self) -> (r: usize)
        ensures
            r == self@.lines.len(),
    {
        self.lines.len()
    }

    /// Index of the line under the cursor.
    pub fn cursor(&self) -> (r: usize)
        ensures
            r == self@.cursor,
    {
        self.selector_index
    }

    /// Index of the first line the window shows.
    pub fn top(&self) -> (r: usize)
        ensures
            r == self@.top,
    {
        self.top_of_screen_index
    }

    /// Number of lines the window shows at most.
    pub fn viewport_height(&self) -> (r: usize)
        ensures
            r == self@.height,
    {
        self.viewport_height
    }

    /// Whether line `i` is marked.
    pub fn is_selected(&self, i: usize) -> (r: bool)
        requires
            i < self@.lines.len(),
        ensures
            r == self@.lines[i as int].is_selected,
    {
        self.lines[i].is_selected
    }

    /// Flips the mark of the line under the cursor.
    pub fn select_file_under_selector(&mut self)
        requires
            old(self).wf(),
        ensures
            final(self)@ == old(self)@.toggle(),
            final(self).wf(),
    {
        if self.lines.len() == 0 {
            return;
        }
        let i = self.selector_index;
        let flipped = !self.lines[i].is_selected;
        self.lines[i].is_selected = flipped;
        assert(self@.lines =~= old(self)@.toggle().lines);
    }

    /// Moves the cursor one line down, from the last line to the first, and
    /// scrolls the window by one line when the cursor would leave it below.
    pub fn move_selector_down(&mut self)
        requires
            old(self).wf(),
        ensures
            final(self)@ == old(self)@.move_down(),
            final(self).wf(),
    {
        let len = self.lines.len();
        if len == 0 {
            return;
        }
        if self.selector_index == len - 1 {
            self.selector_index = 0;
            self.top_of_screen_index = 0;
        } else {
            self.selector_index = self.selector_index + 1;
            if self.selector_index >= self.top_of_screen_index + self.viewport_height {
                self.top_of_screen_index = self.top_of_screen_index + 1;
            }
        }
    }

    /// Moves the cursor one line up, from the first line to the last, and
    /// scrolls the window by one line when the cursor would leave it above;
    /// from the first line the window shows the end of the list.
    pub fn move_selector_up(&mut self)
        requires
            old(self).wf(),
        ensures
            final(self)@ == old(self)@.move_up(),
            final(self).wf(),
    {
        let len = self.lines.len();
        if len == 0 {
            return;
        }
        if self.selector_index == 0 {
            self.selector_index = len - 1;
            self.top_of_screen_index = if len > self.viewport_height {
                len - self.viewport_height
            } else {
                0
            };
        } else {
            self.selector_index = self.selector_index - 1;
            if self.selector_index < self.top_of_screen_index {
                self.top_of_screen_index = self.top_of_screen_index - 1;
            }
        }
    }

    /// The texts of the marked lines, in list order.
    pub fn get_selected_lines(&self) -> (r: Vec<String>)
        ensures
            r@.map_values(|s: String| s@) == selected_contents(self@.lines),
    {
        let mut r: Vec<String> = Vec::new();
        let mut i: usize = 0;
        while i < self.lines.len()
            invariant
                i <= self.lines@.len(),
                r@.map_values(|s: String| s@) == selected_contents(
                    self@.lines.take(i as int),
                ),
            decreases self.lines@.len() - i,
        {
            let ghost before = r@.map_values(|s: String| s@);
            proof {
                lemma_selected_contents_take(self@.lines, i as int);
            }
            if self.lines[i].is_selected {
                r.push(self.lines[i].content.clone());
                assert(r@.map_values(|s: String| s@) =~= before.push(self.lines@[i as int]@.content));
            }
            i = i + 1;
        }
        assert(self@.lines.take(self.lines@.len() as int) =~= self@.lines);
        r
    }

    /// Applies one command: moves the cursor, flips a mark, or ends the
    /// session with the marked texts or with none.
    pub fn apply(&mut self, cmd: Command) -> (r: Outcome)
        requires
            old(self).wf(),
        ensures
            final(self)@ == old(self)@.step(cmd),
            r@ == old(self)@.outcome(cmd),
            final(self).wf(),
    {
        match cmd {
            Command::MoveUp => {
                self.move_selector_up();
                Outcome::Continue
            },
            Command::MoveDown => {
                self.move_selector_down();
                Outcome::Continue
            },
            Command::ToggleSelect => {
                self.select_file_under_selector();
                Outcome::Continue
            },
            Command::Confirm => Outcome::Finished(self.get_selected_lines()),
            Command::Cancel => Outcome::Cancelled { forced: false },
            Command::ForceQuit => Outcome::Cancelled { forced: true },
            Command::Unrecognized => Outcome::Continue,
        }
    }

    /// Gives the window a new height, moving its first line as little as
    /// needed to keep the cursor in view and not scroll past the end.
    pub fn set_viewport_height(&mut self, height: usize)
        requires
            old(self).wf(),
            height >= 1,
        ensures
            final(self)@ == old(self)@.resized(height as int),
            final(self).wf(),
    {
        let len = self.lines.len();
        let cursor = self.selector_index;
        let lo: usize = if cursor + 1 > height {
            cursor + 1 - height
        } else {
            0
        };
        let mt: usize = if len > height {
            len - height
        } else {
            0
        };
        let hi: usize = if cursor < mt {
            cursor
        } else {
            mt
        };
        if self.top_of_screen_index < lo {
            self.top_of_screen_index = lo;
        } else if self.top_of_screen_index > hi {
            self.top_of_screen_index = hi;
        }
        self.viewport_height = height;
    }

    /// The lines the window shows, formatted for printing.
    pub fn fmt_lines_for_display(&self) -> (r: Vec<String>)
        requires
            self.wf(),
        ensures
            r@.map_values(|s: String| s@) == self@.display_lines(),
    {
        let end: usize = if self.viewport_height < self.lines.len() - self.top_of_screen_index {
            self.top_of_screen_index + self.viewport_height
        } else {
            self.lines.len()
        };
        let mut r: Vec<String> = Vec::new();
        let mut i: usize = self.top_of_screen_index;
        while i < end
            invariant
                self.wf(),
                end == self@.window_end(),
                self@.top <= i <= end,
                r@.len() == i - self@.top,
                forall|k: int|
                    0 <= k < r@.len() ==> #[trigger] r@[k]@ == self@.display_lines()[k],
            decreases end - i,
        {
            let s = format_line_exec(&self.lines[i], i == self.selector_index);
            r.push(s);
            i = i + 1;
        }
        assert(r@.map_values(|s: String| s@) =~= self@.display_lines());
        r
    }

    /// Fits the window to the terminal on standard output, one row short of
    /// its height, and returns the terminal's width; where the size cannot be
    /// read, changes nothing and returns `None`.
    pub fn fit_to_terminal(&mut self) -> (r: Option<usize>)
        requires
            old(self).wf(),
        ensures
            final(self).wf(),
            r is None ==> final(self)@ == old(self)@,
            r is Some ==> r->0 >= 1 && exists|rows: int|
                rows >= 1 && final(self)@ == old(self)@.resized(
                    #[trigger] viewport_height_of(rows),
                ),
    {
        match terminal_dimensions() {
            Some((width, rows)) => {
                self.set_viewport_height(viewport_height_for_rows(rows));
                assert(final(self)@ == old(self)@.resized(viewport_height_of(rows as int)));
                Some(width as usize)
            },
            None => None,
        }
    }
}

} // verus!
