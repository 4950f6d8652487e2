//! The panel below the map: the message log and the bar of hit points.

use vstd::prelude::*;
use vstd::string::*;
use std::collections::VecDeque;

use crate::color::Color;
use crate::point::Point;

verus! {

/// How many columns of the panel the bar takes up.
pub const BAR_WIDTH: i16 = 20;

/// The lines that `textwrap::wrap` breaks `text` into at `width` columns.
pub uninterp spec fn wrapped_lines(text: Seq<char>, width: usize) -> Seq<Seq<char>>;

/// Breaks `message` into lines of at most `width` columns with
/// `textwrap::wrap`, and hands each line out as a string of its own.
///
/// Claimed of that function: what it returns rests on the text and the width
/// alone; the lines are given the name `wrapped_lines`.
#[verifier::external_body]
fn wrap(message: &str, width: usize) -> (lines: Vec<String>)
    ensures
        lines.deep_view() == wrapped_lines(message@, width),
{
    textwrap::wrap(message, width).into_iter().map(|line| line.into_owned()).collect()
}

/// A line of the message log: its text and the colour it is shown in.
pub type LogLine = (Seq<char>, Color);

/// The log after `line` is added to it: the oldest line makes room where the
/// log holds `capacity` lines.
pub open spec fn log_push(log: Seq<LogLine>, line: LogLine, capacity: int) -> Seq<LogLine> {
    if log.len() == capacity && log.len() > 0 {
        log.drop_first().push(line)
    } else {
        log.push(line)
    }
}

/// The log after `lines` are added to it one by one, all in `color`.
pub open spec fn log_extend(
    log: Seq<LogLine>,
    lines: Seq<Seq<char>>,
    color: Color,
    capacity: int,
) -> Seq<LogLine>
    decreases lines.len(),
{
    if lines.len() == 0 {
        log
    } else {
        log_push(
            log_extend(log, lines.drop_last(), color, capacity),
            (lines.last(), color),
            capacity,
        )
    }
}

/// The log after each of `messages` is broken into lines of `width` columns
/// and added in its colour.
pub open spec fn log_after(
    log: Seq<LogLine>,
    messages: Seq<LogLine>,
    width: usize,
    capacity: int,
) -> Seq<LogLine>
    decreases messages.len(),
{
    if messages.len() == 0 {
        log
    } else {
        log_extend(
            log_after(log, messages.drop_last(), width, capacity),
            wrapped_lines(messages.last().0, width),
            messages.last().1,
            capacity,
        )
    }
}

/// Showing some messages and then some more is showing them all.
pub proof fn lemma_log_after_more(
    log: Seq<LogLine>,
    first: Seq<LogLine>,
    second: Seq<LogLine>,
    width: usize,
    capacity: int,
)
    ensures
        log_after(log_after(log, first, width, capacity), second, width, capacity) == log_after(
            log,
            first + second,
            width,
            capacity,
        ),
    decreases second.len(),
{
    if second.len() == 0 {
        assert(first + second == first);
    } else {
        lemma_log_after_more(log, first, second.drop_last(), width, capacity);
        assert((first + second).drop_last() == first + second.drop_last());
    }
}

/// `lines`, each with `color`.
pub open spec fn colored(lines: Seq<Seq<char>>, color: Color) -> Seq<LogLine> {
    Seq::new(lines.len(), |i: int| (lines[i], color))
}

/// The last `n` items of `s`, or all of `s` where it has no more than `n`.
pub open spec fn latest(s: Seq<LogLine>, n: int) -> Seq<LogLine> {
    if s.len() <= n {
        s
    } else {
        s.subrange(s.len() - n, s.len() as int)
    }
}

/// A log that is within its capacity holds, after lines are added, the
/// latest lines of all that it was given, as many as the capacity allows,
/// oldest first.
pub proof fn lemma_log_keeps_latest(
    log: Seq<LogLine>,
    lines: Seq<Seq<char>>,
    color: Color,
    capacity: int,
)
    requires
        capacity >= 1,
        log.len() <= capacity,
    ensures
        log_extend(log, lines, color, capacity) == latest(log + colored(lines, color), capacity),
        log_extend(log, lines, color, capacity).len() <= capacity,
    decreases lines.len(),
{
    if lines.len() == 0 {
        assert(log + colored(lines, color) == log);
    } else {
        let rest = lines.drop_last();
        lemma_log_keeps_latest(log, rest, color, capacity);
        let before = log + colored(rest, color);
        let all = log + colored(lines, color);
        assert(all == before.push((lines.last(), color)));
        let kept = latest(before, capacity);
        assert(log_push(kept, (lines.last(), color), capacity) == latest(all, capacity));
    }
}

/// The message log: the latest lines of text, oldest first, each with its
/// colour. It holds no more than `max_lines` lines, each of which is no
/// wider than `width` columns.
pub struct TextBox {
    position: Point,
    lines: VecDeque<(String, Color)>,
    max_lines: usize,
    width: usize,
}

impl TextBox {
    /// The lines of the log, oldest first.
    pub closed spec fn lines(&self) -> Seq<LogLine> {
        Seq::new(self.lines@.len(), |i: int| (self.lines@[i].0@, self.lines@[i].1))
    }

    /// How many lines the log holds at most.
    pub closed spec fn capacity(&self) -> int {
        self.max_lines as int
    }

    /// At how many columns a message is broken.
    pub closed spec fn wrap_width(&self) -> usize {
        self.width
    }

    /// Where in the panel the log is shown.
    pub closed spec fn position(&self) -> Point {
        self.position
    }

    /// An empty log at `position` for `max_lines` lines of `width` columns.
    pub fn new(position: Point, max_lines: usize, width: usize) -> (log: TextBox)
        ensures
            log.lines() == Seq::<LogLine>::empty(),
            log.capacity() == max_lines,
            log.wrap_width() == width,
            log.position() == position,
    {
        let log = TextBox { position, lines: VecDeque::new(), max_lines, width };
        assert(log.lines() == Seq::<LogLine>::empty());
        log
    }

    /// Nothing but the lines differs between the two logs.
    pub open spec fn same_frame(&self, other: &TextBox) -> bool {
        &&& self.capacity() == other.capacity()
        &&& self.wrap_width() == other.wrap_width()
        &&& self.position() == other.position()
    }

    /// Adds `lines` to the log one by one, all in `color`; for each the
    /// oldest line is dropped where the log is full.
    pub fn push_lines(&mut self, lines: Vec<String>, color: Color)
        ensures
            final(self).lines() == log_extend(
                old(self).lines(),
                lines.deep_view(),
                color,
                old(self).capacity(),
            ),
            final(self).same_frame(old(self)),
    {
        let ghost texts = lines.deep_view();
        let mut i: usize = 0;
        while i < lines.len()
            invariant
                i <= lines.len(),
                texts == lines.deep_view(),
                self.same_frame(old(self)),
                self.lines() == log_extend(
                    old(self).lines(),
                    texts.take(i as int),
                    color,
                    old(self).capacity(),
                ),
            decreases lines.len() - i,
        {
            let ghost before = self.lines();
            if self.lines.len() == self.max_lines {
                self.lines.pop_front();
            }
            let line = lines[i].clone();
            proof {
                assert(texts[i as int] == lines@[i as int]@);
                assert(texts.take(i + 1).drop_last() == texts.take(i as int));
            }
            self.lines.push_back((line, color));
            proof {
                assert(self.lines() == log_push(
                    before,
                    (texts[i as int], color),
                    old(self).capacity(),
                ));
            }
            i += 1;
        }
        proof {
            assert(texts.take(lines.len() as int) == texts);
        }
    }

    /// Breaks `message` into lines of the log's width and adds them in
    /// `color`.
    pub fn add_message(&mut self, message: &str, color: Color)
        ensures
            final(self).lines() == log_extend(
                old(self).lines(),
                wrapped_lines(message@, old(self).wrap_width()),
                color,
                old(self).capacity(),
            ),
            final(self).same_frame(old(self)),
    {
        let lines = wrap(message, self.width);
        self.push_lines(lines, color);
    }

    /// The `i`-th line of the log, oldest first, and its colour.
    pub fn line(&self, i: usize) -> (r: (&str, Color))
        requires
            i < self.lines().len(),
        ensures
            (r.0@, r.1) == self.lines()[i as int],
    {
        let entry = &self.lines[i];
        (entry.0.as_str(), entry.1)
    }

    /// How many lines the log holds.
    pub fn len(&self) -> (n: usize)
        ensures
            n == self.lines().len(),
    {
        self.lines.len()
    }

    pub fn get_position(&self) -> (p: Point)
        ensures
            p == self.position(),
    {
        self.position
    }
}


/// What a `Bar` is, with its name as a sequence of characters.
pub struct BarView {
    pub position: Point,
    pub width: i16,
    pub name: Seq<char>,
    pub value_max: i16,
    pub value_cur: i16,
    pub color_bar: Color,
    pub color_background: Color,
}

/// A bar that shows how much of a quantity is left, such as the player's
/// hit points.
#[derive(Debug)]
pub struct Bar {
    pub position: Point,
    pub width: i16,
    pub name: String,
    pub value_max: i16,
    pub value_cur: i16,
    pub color_bar: Color,
    pub color_background: Color,
}

impl View for Bar {
    type V = BarView;

    open spec fn view(&self) -> BarView {
        BarView {
            position: self.position,
            width: self.width,
            name: self.name@,
            value_max: self.value_max,
            value_cur: self.value_cur,
            color_bar: self.color_bar,
            color_background: self.color_background,
        }
    }
}

impl Bar {
    /// A full bar.
    pub fn new(
        pos: Point,
        width: i16,
        name: &str,
        max_val: i16,
        col_back: Color,
        col_bar: Color,
    ) -> (bar: Bar)
        ensures
            bar@ == (BarView {
                position: pos,
                width,
                name: name@,
                value_max: max_val,
                value_cur: max_val,
                color_bar: col_bar,
                color_background: col_back,
            }),
    {
        Bar {
            position: pos,
            width,
            name: String::from_str(name),
            value_max: max_val,
            value_cur: max_val,
            color_bar: col_bar,
            color_background: col_back,
        }
    }

    pub fn set_value(&mut self, new_val: i16)
        requires
            new_val <= old(self).value_max,
        ensures
            final(self)@ == (BarView { value_cur: new_val, ..old(self)@ }),
    {
        self.value_cur = new_val;
    }

    /// How many columns of the bar are filled: the part of its width that
    /// the value is of its maximum, rounded towards zero.
    pub open spec fn filled(&self) -> int {
        (self.value_cur * self.width) / (self.value_max as int)
    }

    /// How many columns of the bar are filled.
    pub fn filled_width(&self) -> (w: i16)
        requires
            0 <= self.value_cur <= self.value_max,
            0 < self.value_max,
            0 <= self.width,
            self.value_cur * self.width <= i16::MAX,
        ensures
            w == self.filled(),
            0 <= w <= self.width,
    {
        let ghost cur = self.value_cur as int;
        let ghost max = self.value_max as int;
        let ghost width = self.width as int;
        assert(0 <= cur * width <= max * width) by (nonlinear_arith)
            requires
                0 <= cur <= max,
                0 <= width,
        ;
        assert(0 <= (cur * width) / max <= width) by {
            vstd::arithmetic::div_mod::lemma_div_pos_is_pos(cur * width, max);
            vstd::arithmetic::div_mod::lemma_div_is_ordered(cur * width, max * width, max);
            vstd::arithmetic::div_mod::lemma_div_multiples_vanish(width, max);
            assert(max * width == width * max) by (nonlinear_arith);
        }
        (self.value_cur * self.width) / self.value_max
    }
}

/// The panel below the map: a bar for the player's hit points and, beside
/// it, the message log.
pub struct UI {
    position: Point,
    width: i32,
    height: i32,
    bar_hp: Bar,
    message_box: TextBox,
}

impl UI {
    /// Where on the screen the panel is shown.
    pub closed spec fn position(&self) -> Point {
        self.position
    }

    /// The width and height of the panel.
    pub closed spec fn size(&self) -> (i32, i32) {
        (self.width, self.height)
    }

    /// The bar for the player's hit points.
    pub closed spec fn bar(&self) -> BarView {
        self.bar_hp@
    }

    /// The message log.
    pub closed spec fn log(&self) -> TextBox {
        self.message_box
    }

    /// The lines of the message log.
    pub open spec fn lines(&self) -> Seq<LogLine> {
        self.log().lines()
    }

    /// Nothing but the lines of the log differs between the two panels.
    pub open spec fn same_frame(&self, before: &UI) -> bool {
        &&& self.position() == before.position()
        &&& self.size() == before.size()
        &&& self.bar() == before.bar()
        &&& self.log().same_frame(&before.log())
    }

    /// The panel after `messages` are shown one after the other: nothing but
    /// the lines of the log changes.
    pub open spec fn shows_all(&self, before: &UI, messages: Seq<LogLine>) -> bool {
        &&& self.same_frame(before)
        &&& self.lines() == log_after(
            before.lines(),
            messages,
            before.log().wrap_width(),
            before.log().capacity(),
        )
    }

    /// The panel after `message` is shown in `color`: nothing but the lines
    /// of the log changes.
    pub open spec fn shows(&self, before: &UI, message: Seq<char>, color: Color) -> bool {
        self.shows_all(before, seq![(message, color)])
    }

    /// A panel of `panel_width` by `panel_height` at `pos`, with a full bar
    /// for `max_hp` hit points in its first `BAR_WIDTH` columns and an empty
    /// log of `panel_height` lines in the rest.
    pub fn new(pos: Point, panel_width: i32, panel_height: i32, max_hp: i16) -> (ui: UI)
        requires
            panel_width >= BAR_WIDTH,
            panel_height > 0,
        ensures
            ui.position() == pos,
            ui.size() == (panel_width, panel_height),
            ui.bar() == (BarView {
                position: Point { x: 0, y: 0 },
                width: BAR_WIDTH,
                name: "HP"@,
                value_max: max_hp,
                value_cur: max_hp,
                color_bar: Color::spec_light_red(),
                color_background: Color::spec_darker_red(),
            }),
            ui.lines() == Seq::<LogLine>::empty(),
            ui.log().capacity() == panel_height,
            ui.log().wrap_width() == panel_width - BAR_WIDTH,
            ui.log().position() == (Point { x: BAR_WIDTH, y: 0 }),
    {
        UI {
            position: pos,
            width: panel_width,
            height: panel_height,
            bar_hp: Bar::new(
                Point { x: 0, y: 0 },
                BAR_WIDTH,
                "HP",
                max_hp,
                Color::darker_red(),
                Color::light_red(),
            ),
            message_box: TextBox::new(
                Point { x: BAR_WIDTH, y: 0 },
                panel_height as usize,
                panel_width as usize - BAR_WIDTH as usize,
            ),
        }
    }

    pub fn update_hp_val(&mut self, new_val: i16)
        requires
            new_val <= old(self).bar().value_max,
        ensures
            final(self).bar() == (BarView { value_cur: new_val, ..old(self).bar() }),
            final(self).position() == old(self).position(),
            final(self).size() == old(self).size(),
            final(self).log() == old(self).log(),
    {
        self.bar_hp.set_value(new_val);
    }

    pub fn add_message(&mut self, message: &str, color: Color)
        ensures
            final(self).shows(old(self), message@, color),
    {
        self.message_box.add_message(message, color);
        proof {
            let shown = seq![(message@, color)];
            assert(shown.drop_last() == Seq::<LogLine>::empty());
            assert(log_after(
                old(self).lines(),
                shown.drop_last(),
                old(self).log().wrap_width(),
                old(self).log().capacity(),
            ) == old(self).lines());
        }
    }

    /// Showing some messages and then some more is showing them all.
    pub proof fn lemma_shows_more(
        &self,
        before: &UI,
        between: &UI,
        first: Seq<LogLine>,
        second: Seq<LogLine>,
    )
        requires
            between.shows_all(before, first),
            self.shows_all(between, second),
        ensures
            self.shows_all(before, first + second),
    {
        lemma_log_after_more(
            before.lines(),
            first,
            second,
            before.log().wrap_width(),
            before.log().capacity(),
        );
    }

    pub fn get_position(&self) -> (p: Point)
        ensures
            p == self.position(),
    {
        self.position
    }

    pub fn get_size(&self) -> (size: (i32, i32))
        ensures
            size == self.size(),
    {
        (self.width, self.height)
    }

    pub fn get_bar(&self) -> (bar: &Bar)
        ensures
            bar@ == self.bar(),
    {
        &self.bar_hp
    }

    pub fn get_message_box(&self) -> (log: &TextBox)
        ensures
            *log == self.log(),
    {
        &self.message_box
    }
}

} // verus!
