use vstd::prelude::*;

use crate::text::{num_text, push_digits};

verus! {

/// Width of the display in pixels.
pub const WIDTH: u32 = 128;

/// Height of the display in pixels.
pub const HEIGHT: u32 = 64;

/// Width of one glyph of the display's font in pixels.
pub const GLYPH_WIDTH: u32 = 6;

/// Left edge of the main screen's lines.
pub const LINE_X: i32 = 1;

/// Top of the main screen's first line.
pub const FIRST_LINE_Y: i32 = 1;

/// Distance from one line of the main screen to the next.
pub const LINE_STEP: i32 = 11;

/// Text of the banner shown at startup.
pub const WELCOME: &'static str = "Welcome";

/// Text of the banner shown at shutdown.
pub const GOODBYE: &'static str = "Good Bye";

/// Which point of a text its position gives.
#[derive(Clone, Copy, Debug, PartialEq, Eq, Structural)]
pub enum Baseline {
    Top,
    Middle,
}

/// One drawing operation of a frame.
#[derive(Clone, Debug)]
pub enum DrawOp {
    /// A one-pixel outline of a rectangle.
    Rectangle { x: i32, y: i32, width: u32, height: u32 },
    /// A text in the display's font, at a position that `baseline` anchors.
    Text { x: i32, y: i32, text: String, baseline: Baseline },
}

/// Left edge of a centered text of `count` glyphs, each `glyph` pixels wide, on a surface
/// `width` pixels wide; zero where the text is as wide as the surface or wider.
pub open spec fn centered_x(width: nat, glyph: nat, count: nat) -> nat {
    if glyph * count >= width {
        0
    } else {
        ((width - glyph * count) / 2) as nat
    }
}

/// Left edge of a banner text of `count` characters.
pub fn banner_offset(width: u32, glyph: u32, count: usize) -> (r: u32)
    ensures
        r == centered_x(width as nat, glyph as nat, count as nat),
{
    if count as u64 > width as u64 {
        if glyph == 0 {
            assert(glyph * count == 0) by (nonlinear_arith)
                requires
                    glyph == 0,
            ;
            width / 2
        } else {
            assert(glyph * count >= width) by (nonlinear_arith)
                requires
                    glyph >= 1,
                    count > width,
            ;
            0
        }
    } else {
        assert(glyph * count <= 0xffff_ffff * 0xffff_ffffu64) by (nonlinear_arith)
            requires
                glyph <= 0xffff_ffff,
                count <= width,
                width <= 0xffff_ffff,
        ;
        let text_width = glyph as u64 * count as u64;
        if text_width >= width as u64 {
            0
        } else {
            ((width as u64 - text_width) / 2) as u32
        }
    }
}

/// A bordered full-screen frame with `text` centered in it.
pub open spec fn banner_ops_spec(ops: Seq<DrawOp>, text: Seq<char>) -> bool {
    &&& ops.len() == 2
    &&& ops[0] == DrawOp::Rectangle { x: 0, y: 0, width: WIDTH, height: HEIGHT }
    &&& ops[1] matches DrawOp::Text { x, y, text: t, baseline } && x == centered_x(
        WIDTH as nat,
        GLYPH_WIDTH as nat,
        text.len(),
    ) && y == HEIGHT / 2 && t@ == text && baseline == Baseline::Middle
}

/// The operations of a banner: the screen's outline, and `text` centered on its middle.
pub fn banner_frame(text: &str) -> (r: Vec<DrawOp>)
    ensures
        banner_ops_spec(r@, text@),
{
    let count = text.unicode_len();
    let x = banner_offset(WIDTH, GLYPH_WIDTH, count);
    let mut ops: Vec<DrawOp> = Vec::new();
    ops.push(DrawOp::Rectangle { x: 0, y: 0, width: WIDTH, height: HEIGHT });
    ops.push(
        DrawOp::Text {
            x: x as i32,
            y: (HEIGHT / 2) as i32,
            text: String::from_str(text),
            baseline: Baseline::Middle,
        },
    );
    ops
}

/// The operation that shows line `i` of the main screen.
pub open spec fn line_op(op: DrawOp, i: int, text: Seq<char>) -> bool {
    op matches DrawOp::Text { x, y, text: t, baseline } && x == LINE_X && y == FIRST_LINE_Y
        + LINE_STEP * i && t@ == text && baseline == Baseline::Top
}

fn line(i: i32, text: String) -> (r: DrawOp)
    requires
        0 <= i < 6,
    ensures
        line_op(r, i as int, text@),
{
    DrawOp::Text { x: LINE_X, y: FIRST_LINE_Y + LINE_STEP * i, text, baseline: Baseline::Top }
}

/// The main screen: the time, the network address, the three readings and the load, one
/// line each from the top.
pub fn main_frame(
    time: String,
    address: String,
    temperature: String,
    humidity: String,
    pressure: String,
    load: String,
) -> (r: Vec<DrawOp>)
    ensures
        r@.len() == 6,
        line_op(r@[0], 0, time@),
        line_op(r@[1], 1, address@),
        line_op(r@[2], 2, temperature@),
        line_op(r@[3], 3, humidity@),
        line_op(r@[4], 4, pressure@),
        line_op(r@[5], 5, load@),
{
    let mut ops: Vec<DrawOp> = Vec::new();
    ops.push(line(0, time));
    ops.push(line(1, address));
    ops.push(line(2, temperature));
    ops.push(line(3, humidity));
    ops.push(line(4, pressure));
    ops.push(line(5, load));
    ops
}

/// The network address line: the address, or `???` where none was found.
pub open spec fn address_text(address: Option<Seq<char>>) -> Seq<char> {
    match address {
        Some(a) => "IP: "@ + a,
        None => "IP: "@ + "???"@,
    }
}

pub fn address_line(address: Option<String>) -> (r: String)
    ensures
        r@ == address_text(
            match address {
                Some(a) => Some(a@),
                None => None,
            },
        ),
{
    match address {
        Some(a) => String::from_str("IP: ").concat(a.as_str()),
        None => String::from_str("IP: ").concat("???"),
    }
}

/// A local date and time, as the clock gives it.
#[derive(Clone, Copy, Debug, PartialEq, Eq, Structural)]
pub struct LocalTime {
    pub year: i32,
    pub month: u32,
    pub day: u32,
    pub hour: u32,
    pub minute: u32,
    pub second: u32,
}

impl LocalTime {
    pub open spec fn wf(&self) -> bool {
        &&& 1 <= self.month <= 12
        &&& 1 <= self.day <= 31
        &&& self.hour <= 23
        &&& self.minute <= 59
        &&& self.second <= 60
    }
}

/// The year in four digits where it has at most four, else with its sign.
pub open spec fn year_text(year: int) -> Seq<char> {
    if 0 <= year <= 9999 {
        num_text(year as nat, 10, 4)
    } else if year < 0 {
        seq!['-'] + num_text((-year) as nat, 10, 4)
    } else {
        seq!['+'] + num_text(year as nat, 10, 4)
    }
}

/// `YYYY/MM/DD HH:MM:SS`.
pub open spec fn time_text(t: LocalTime) -> Seq<char> {
    year_text(t.year as int) + seq!['/'] + num_text(t.month as nat, 10, 2) + seq!['/']
        + num_text(t.day as nat, 10, 2) + seq![' '] + num_text(t.hour as nat, 10, 2) + seq![':']
        + num_text(t.minute as nat, 10, 2) + seq![':'] + num_text(t.second as nat, 10, 2)
}

/// The time line of the main screen.
pub fn time_line(t: &LocalTime) -> (r: String)
    ensures
        r@ == time_text(*t),
{
    let mut s = String::new();
    if t.year < 0 {
        s.push('-');
        push_digits(&mut s, (0i64 - t.year as i64) as u64, 10, 4);
    } else if t.year > 9999 {
        s.push('+');
        push_digits(&mut s, t.year as u64, 10, 4);
    } else {
        push_digits(&mut s, t.year as u64, 10, 4);
    }
    s.push('/');
    push_digits(&mut s, t.month as u64, 10, 2);
    s.push('/');
    push_digits(&mut s, t.day as u64, 10, 2);
    s.push(' ');
    push_digits(&mut s, t.hour as u64, 10, 2);
    s.push(':');
    push_digits(&mut s, t.minute as u64, 10, 2);
    s.push(':');
    push_digits(&mut s, t.second as u64, 10, 2);
    s
}

/// Where the showing of a frame of `n` operations stands: the screen is cleared, each
/// operation drawn in order, then the frame flushed. A failed step ends it; nothing is drawn
/// or flushed after one.
#[derive(Clone, Copy, Debug, PartialEq, Eq, Structural)]
pub enum FrameStep {
    Clear,
    Draw(usize),
    Flush,
    Done,
    Failed,
}

/// The step after `step` has been carried out, successfully or not, in a frame of `n`
/// operations.
pub open spec fn next_step(step: FrameStep, ok: bool, n: nat) -> FrameStep {
    match step {
        FrameStep::Clear => if !ok {
            FrameStep::Failed
        } else if n == 0 {
            FrameStep::Flush
        } else {
            FrameStep::Draw(0)
        },
        FrameStep::Draw(i) => if !ok {
            FrameStep::Failed
        } else if i + 1 < n {
            FrameStep::Draw((i + 1) as usize)
        } else {
            FrameStep::Flush
        },
        FrameStep::Flush => if ok {
            FrameStep::Done
        } else {
            FrameStep::Failed
        },
        _ => step,
    }
}

/// The step reached from `Clear` after the outcomes `oks`, in order.
pub open spec fn step_after(oks: Seq<bool>, n: nat) -> FrameStep
    decreases oks.len(),
{
    if oks.len() == 0 {
        FrameStep::Clear
    } else {
        next_step(step_after(oks.drop_last(), n), oks.last(), n)
    }
}

impl FrameStep {
    /// The step after this one, given whether it succeeded, in a frame of `n` operations.
    pub fn next(self, ok: bool, n: usize) -> (r: FrameStep)
        ensures
            r == next_step(self, ok, n as nat),
    {
        match self {
            FrameStep::Clear => if !ok {
                FrameStep::Failed
            } else if n == 0 {
                FrameStep::Flush
            } else {
                FrameStep::Draw(0)
            },
            FrameStep::Draw(i) => if !ok {
                FrameStep::Failed
            } else if i < n && i + 1 < n {
                FrameStep::Draw(i + 1)
            } else {
                FrameStep::Flush
            },
            FrameStep::Flush => if ok {
                FrameStep::Done
            } else {
                FrameStep::Failed
            },
            _ => self,
        }
    }
}

proof fn lemma_steps_in_order(oks: Seq<bool>, n: nat)
    requires
        n < usize::MAX,
    ensures
        oks.len() <= n + 2 && (forall|j: int| 0 <= j < oks.len() ==> #[trigger] oks[j])
            ==> step_after(oks, n) == (if oks.len() == 0 {
            FrameStep::Clear
        } else if oks.len() <= n {
            FrameStep::Draw((oks.len() - 1) as usize)
        } else if oks.len() == n + 1 {
            FrameStep::Flush
        } else {
            FrameStep::Done
        }),
        oks.len() <= n + 2 && (exists|j: int| 0 <= j < oks.len() && !#[trigger] oks[j])
            ==> step_after(oks, n) == FrameStep::Failed,
    decreases oks.len(),
{
    if oks.len() > 0 {
        let p = oks.drop_last();
        lemma_steps_in_order(p, n);
        if forall|j: int| 0 <= j < oks.len() ==> #[trigger] oks[j] {
            assert forall|j: int| 0 <= j < p.len() implies #[trigger] p[j] by {
                assert(oks[j]);
            }
        }
        if exists|j: int| 0 <= j < oks.len() && !#[trigger] oks[j] {
            let j = choose|j: int| 0 <= j < oks.len() && !#[trigger] oks[j];
            if j < p.len() {
                assert(!p[j]);
            }
        }
    }
}

/// Showing a frame of `n` operations: while every step succeeds, the screen is cleared, the
/// operations are drawn one by one in their order, and the frame is flushed once after the
/// last of them; after a step that fails, nothing more is drawn or flushed (the `n + 2` steps
/// bound the outcomes of one showing).
pub proof fn frame_steps_law(oks: Seq<bool>, n: nat)
    requires
        n < usize::MAX,
    ensures
        (forall|j: int| 0 <= j < oks.len() ==> #[trigger] oks[j]) ==> {
            &&& (1 <= oks.len() <= n ==> step_after(oks, n) == FrameStep::Draw(
                (oks.len() - 1) as usize,
            ))
            &&& (oks.len() == n + 1 ==> step_after(oks, n) == FrameStep::Flush)
            &&& (oks.len() == n + 2 ==> step_after(oks, n) == FrameStep::Done)
        },
        oks.len() <= n + 2 && (exists|j: int| 0 <= j < oks.len() && !#[trigger] oks[j])
            ==> step_after(oks, n) == FrameStep::Failed,
{
    lemma_steps_in_order(oks, n);
}

} // verus!
