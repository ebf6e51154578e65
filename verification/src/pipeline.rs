//! The rules of the canvas pipeline: what the render loop does with each command,
//! and when the timer asks for a flush.

use vstd::prelude::*;
use crate::canvas::{all_blank, blank_pixels, Canvas};
use crate::placement::{Data, PlacementModel};
use crate::text::{push_two_digits, two_digits};
use vstd::string::StringExecFns;

verus! {

/// What the workers ask of the render loop.
#[derive(Debug)]
pub enum UICommand {
    /// Send the canvas to the printer and wipe it.
    Clear,
    /// Draw a placement on the canvas.
    Draw(Data),
    /// Leave the loop.
    Quit,
}

/// What the render loop asks of the print worker.
#[derive(Debug)]
pub enum PrinterCommand {
    /// Print these pixels.
    Print(Vec<u32>),
}

/// Mathematical model of a command.
pub enum CommandModel {
    Clear,
    Draw(PlacementModel),
    Quit,
}

impl View for UICommand {
    type V = CommandModel;

    open spec fn view(&self) -> CommandModel {
        match *self {
            UICommand::Clear => CommandModel::Clear,
            UICommand::Draw(data) => CommandModel::Draw(data@),
            UICommand::Quit => CommandModel::Quit,
        }
    }
}

/// What the render loop does after it has taken a command.
#[derive(Debug)]
pub enum RenderStep {
    /// Nothing.
    Idle,
    /// Hand these pixels, which were on the canvas before it was wiped, to the
    /// print worker and to the archive.
    Print(Vec<u32>),
    /// Draw this placement on the canvas.
    Place(Data),
    /// Leave the loop.
    Quit,
}

/// Mathematical model of a step.
pub enum StepModel {
    Idle,
    Print(Seq<u32>),
    Place(PlacementModel),
    Quit,
}

impl View for RenderStep {
    type V = StepModel;

    open spec fn view(&self) -> StepModel {
        match *self {
            RenderStep::Idle => StepModel::Idle,
            RenderStep::Print(pixels) => StepModel::Print(pixels@),
            RenderStep::Place(data) => StepModel::Place(data@),
            RenderStep::Quit => StepModel::Quit,
        }
    }
}

/// The step that a command leads to on a canvas.
pub open spec fn step_for(canvas: Seq<u32>, command: CommandModel) -> StepModel {
    match command {
        CommandModel::Clear => if all_blank(canvas) {
            StepModel::Idle
        } else {
            StepModel::Print(canvas)
        },
        CommandModel::Draw(placement) => StepModel::Place(placement),
        CommandModel::Quit => StepModel::Quit,
    }
}

/// The canvas after a command has been taken, before anything is drawn.
pub open spec fn canvas_when_taken(canvas: Seq<u32>, command: CommandModel) -> Seq<u32> {
    match command {
        CommandModel::Clear => blank_pixels(canvas.len()),
        _ => canvas,
    }
}

/// Takes one command: a flush hands out the canvas, unless it is blank, and
/// wipes it; a drawing and the end of the loop are passed on.
pub fn render_step(canvas: &mut Canvas, command: UICommand) -> (step: RenderStep)
    ensures
        step@ == step_for(old(canvas)@, command@),
        final(canvas)@ == canvas_when_taken(old(canvas)@, command@),
        final(canvas).spec_width() == old(canvas).spec_width(),
        final(canvas).spec_height() == old(canvas).spec_height(),
{
    match command {
        UICommand::Clear => {
            if canvas.is_blank() {
                canvas.clear();
                RenderStep::Idle
            } else {
                let pixels = canvas.snapshot();
                canvas.clear();
                RenderStep::Print(pixels)
            }
        },
        UICommand::Draw(data) => RenderStep::Place(data),
        UICommand::Quit => RenderStep::Quit,
    }
}

/// The canvas after the render loop has taken the commands in order, where
/// `render` is what the renderer makes of a canvas and a placement. Nothing behind
/// a `Quit` is looked at.
pub open spec fn canvas_after(
    canvas: Seq<u32>,
    commands: Seq<CommandModel>,
    render: spec_fn(Seq<u32>, PlacementModel) -> Seq<u32>,
) -> Seq<u32>
    decreases commands.len(),
{
    if commands.len() == 0 {
        canvas
    } else {
        match commands.first() {
            CommandModel::Quit => canvas,
            CommandModel::Clear => canvas_after(
                blank_pixels(canvas.len()),
                commands.drop_first(),
                render,
            ),
            CommandModel::Draw(placement) => canvas_after(
                render(canvas, placement),
                commands.drop_first(),
                render,
            ),
        }
    }
}

/// The pixels handed to the print worker while the render loop takes the
/// commands in order.
pub open spec fn prints_of(
    canvas: Seq<u32>,
    commands: Seq<CommandModel>,
    render: spec_fn(Seq<u32>, PlacementModel) -> Seq<u32>,
) -> Seq<Seq<u32>>
    decreases commands.len(),
{
    if commands.len() == 0 {
        Seq::empty()
    } else {
        match commands.first() {
            CommandModel::Quit => Seq::empty(),
            CommandModel::Clear => (if all_blank(canvas) {
                Seq::<Seq<u32>>::empty()
            } else {
                seq![canvas]
            }) + prints_of(blank_pixels(canvas.len()), commands.drop_first(), render),
            CommandModel::Draw(placement) => prints_of(
                render(canvas, placement),
                commands.drop_first(),
                render,
            ),
        }
    }
}

/// A renderer that leaves the measures of the canvas alone.
pub open spec fn keeps_size(render: spec_fn(Seq<u32>, PlacementModel) -> Seq<u32>) -> bool {
    forall|canvas: Seq<u32>, placement: PlacementModel| #[trigger]
        render(canvas, placement).len() == canvas.len()
}

/// A drawing, a flush and another drawing leave on the canvas what the second
/// drawing alone puts on a blank canvas.
pub proof fn lemma_flush_forgets_earlier_drawings(
    canvas: Seq<u32>,
    first: PlacementModel,
    second: PlacementModel,
    render: spec_fn(Seq<u32>, PlacementModel) -> Seq<u32>,
)
    requires
        keeps_size(render),
    ensures
        canvas_after(
            canvas,
            seq![CommandModel::Draw(first), CommandModel::Clear, CommandModel::Draw(second)],
            render,
        ) == render(blank_pixels(canvas.len()), second),
        canvas_after(
            canvas,
            seq![CommandModel::Draw(first), CommandModel::Clear, CommandModel::Draw(second)],
            render,
        ) == canvas_after(
            blank_pixels(canvas.len()),
            seq![CommandModel::Draw(second)],
            render,
        ),
{
    let all = seq![CommandModel::Draw(first), CommandModel::Clear, CommandModel::Draw(second)];
    let tail = seq![CommandModel::Clear, CommandModel::Draw(second)];
    let last = seq![CommandModel::Draw(second)];
    assert(all.drop_first() =~= tail);
    assert(tail.drop_first() =~= last);
    assert(last.drop_first() =~= Seq::<CommandModel>::empty());
    reveal_with_fuel(canvas_after, 4);
    assert(render(canvas, first).len() == canvas.len());
}

/// A drawing that leaves a mark, followed by a flush, hands exactly one canvas to
/// the print worker: the one that holds the drawing.
pub proof fn lemma_flush_prints_the_drawing(
    count: nat,
    placement: PlacementModel,
    render: spec_fn(Seq<u32>, PlacementModel) -> Seq<u32>,
)
    requires
        !all_blank(render(blank_pixels(count), placement)),
    ensures
        prints_of(
            blank_pixels(count),
            seq![CommandModel::Draw(placement), CommandModel::Clear],
            render,
        ) == seq![render(blank_pixels(count), placement)],
{
    let all = seq![CommandModel::Draw(placement), CommandModel::Clear];
    let tail = seq![CommandModel::Clear];
    assert(all.drop_first() =~= tail);
    assert(tail.drop_first() =~= Seq::<CommandModel>::empty());
    reveal_with_fuel(prints_of, 3);
    let drawn = render(blank_pixels(count), placement);
    assert(seq![drawn] + Seq::<Seq<u32>>::empty() =~= seq![drawn]);
}

/// Flushes of a blank canvas hand nothing to the print worker, however many
/// there are.
pub proof fn lemma_blank_canvas_prints_nothing(
    count: nat,
    flushes: nat,
    render: spec_fn(Seq<u32>, PlacementModel) -> Seq<u32>,
)
    ensures
        prints_of(blank_pixels(count), Seq::new(flushes, |i: int| CommandModel::Clear), render)
            == Seq::<Seq<u32>>::empty(),
    decreases flushes,
{
    let commands = Seq::new(flushes, |i: int| CommandModel::Clear);
    if flushes > 0 {
        lemma_blank_canvas_prints_nothing(count, (flushes - 1) as nat, render);
        assert(commands.drop_first() =~= Seq::new(
            (flushes - 1) as nat,
            |i: int| CommandModel::Clear,
        ));
        assert(blank_pixels(count).len() == count);
        assert(Seq::<Seq<u32>>::empty() + Seq::<Seq<u32>>::empty() =~= Seq::<Seq<u32>>::empty());
    }
}

/// The timer that asks for a flush when its countdown has run out.
#[derive(Debug, Clone, Copy, PartialEq, Eq, Structural)]
pub struct Countdown {
    /// Seconds from one flush to the start of the next countdown.
    pub period: u64,
    /// Seconds left.
    pub remaining: u64,
}

impl Countdown {
    /// The countdown one second later: it steps down, and starts over from zero.
    pub open spec fn ticked(self) -> Countdown {
        if self.remaining == 0 {
            Countdown { remaining: self.period, ..self }
        } else {
            Countdown { remaining: (self.remaining - 1) as u64, ..self }
        }
    }

    /// The remainder as it is shown: the prefix, then minutes and seconds with at
    /// least two digits each.
    pub open spec fn shown(self, prefix: Seq<char>) -> Seq<char> {
        prefix + two_digits((self.remaining / 60) as nat) + seq![':'] + two_digits(
            (self.remaining % 60) as nat,
        )
    }

    /// A countdown of `period` seconds at its start.
    pub fn new(period: u64) -> (countdown: Countdown)
        ensures
            countdown == (Countdown { period, remaining: period }),
    {
        Countdown { period, remaining: period }
    }

    /// Lets one second pass. Returns whether a flush is due: it is when the
    /// countdown stood at zero, and the countdown then starts over.
    pub fn tick(&mut self) -> (flush: bool)
        ensures
            flush == (old(self).remaining == 0),
            *final(self) == old(self).ticked(),
    {
        if self.remaining == 0 {
            self.remaining = self.period;
            true
        } else {
            self.remaining = self.remaining - 1;
            false
        }
    }

    /// The text that shows the remainder.
    pub fn status_text(&self, prefix: &str) -> (text: String)
        ensures
            text@ == self.shown(prefix@),
    {
        let mut text = String::from_str(prefix);
        push_two_digits(&mut text, self.remaining / 60);
        text.push(':');
        push_two_digits(&mut text, self.remaining % 60);
        proof {
            assert(text@ =~= self.shown(prefix@));
        }
        text
    }
}

/// A countdown reaches zero after as many seconds as it has left, and asks for a
/// flush only then.
pub proof fn lemma_countdown_runs_out(countdown: Countdown, seconds: nat)
    requires
        seconds <= countdown.remaining,
    ensures
        ticks(countdown, seconds).remaining == countdown.remaining - seconds,
        ticks(countdown, seconds).period == countdown.period,
    decreases seconds,
{
    if seconds > 0 {
        lemma_countdown_runs_out(countdown, (seconds - 1) as nat);
    }
}

/// The countdown after some seconds.
pub open spec fn ticks(countdown: Countdown, seconds: nat) -> Countdown
    decreases seconds,
{
    if seconds == 0 {
        countdown
    } else {
        ticks(countdown, (seconds - 1) as nat).ticked()
    }
}

} // verus!
