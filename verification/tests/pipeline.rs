use chat_label_printer::canvas::{Canvas, BLANK, INK};
use chat_label_printer::config::{LABEL_DENSITY, LABEL_QUANTITY, LABEL_TYPE};
use chat_label_printer::fallback_parser::parse_string;
use chat_label_printer::ingest::{choose_placement, ingest_message, Ingested};
use chat_label_printer::pipeline::{render_step, Countdown, RenderStep, UICommand};
use chat_label_printer::placement::{CanvasLimits, Data};
use chat_label_printer::session::PrintJob;

fn limits() -> CanvasLimits {
    CanvasLimits { width: 500, height: 500, max_size: 100 }
}

/// Stands in for the renderer: marks the pixel at (x, y).
fn draw(canvas: &mut Canvas, data: &Data) {
    let position = data.y as usize * canvas.width() + data.x as usize;
    canvas.ink(position);
}

fn take(canvas: &mut Canvas, command: UICommand) -> Option<Vec<u32>> {
    match render_step(canvas, command) {
        RenderStep::Place(data) => {
            draw(canvas, &data);
            None
        }
        RenderStep::Print(pixels) => Some(pixels),
        RenderStep::Idle | RenderStep::Quit => None,
    }
}

fn placement(text: &str, x: u32, y: u32) -> Data {
    Data { text: text.to_string(), x, y, size: 1 }
}

#[test]
fn new_canvas_is_blank() {
    let canvas = Canvas::new(4, 3).unwrap();
    assert_eq!((canvas.width(), canvas.height()), (4, 3));
    assert_eq!(canvas.pixels(), &vec![BLANK; 12]);
    assert!(canvas.is_blank());
    assert!(Canvas::new(usize::MAX, 2).is_none());
    assert!(Canvas::new(0, 5).unwrap().is_blank());
}

#[test]
fn ink_and_toggle() {
    let mut canvas = Canvas::new(2, 2).unwrap();
    canvas.ink(1);
    canvas.ink(4);
    assert_eq!(canvas.pixels(), &vec![BLANK, INK, BLANK, BLANK]);
    assert!(!canvas.is_blank());
    canvas.toggle(1);
    canvas.toggle(2);
    canvas.toggle(9);
    assert_eq!(canvas.pixels(), &vec![BLANK, BLANK, INK, BLANK]);
    assert_eq!(canvas.snapshot(), vec![BLANK, BLANK, INK, BLANK]);
    canvas.clear();
    assert!(canvas.is_blank());
    assert_eq!(canvas.pixels().len(), 4);
}

#[test]
fn draw_then_clear_then_draw_leaves_only_the_second_drawing() {
    let mut canvas = Canvas::new(4, 4).unwrap();
    assert_eq!(take(&mut canvas, UICommand::Draw(placement("a", 1, 1))), None);
    let printed = take(&mut canvas, UICommand::Clear).unwrap();
    assert_eq!(take(&mut canvas, UICommand::Draw(placement("b", 2, 3))), None);

    let mut first = vec![BLANK; 16];
    first[5] = INK;
    assert_eq!(printed, first);

    let mut only_second = Canvas::new(4, 4).unwrap();
    draw(&mut only_second, &placement("b", 2, 3));
    assert_eq!(canvas.pixels(), only_second.pixels());
}

#[test]
fn clear_of_a_blank_canvas_prints_nothing() {
    let mut canvas = Canvas::new(4, 4).unwrap();
    assert!(matches!(render_step(&mut canvas, UICommand::Clear), RenderStep::Idle));
    assert!(matches!(render_step(&mut canvas, UICommand::Clear), RenderStep::Idle));
    assert!(canvas.is_blank());
}

#[test]
fn clear_hands_out_the_canvas_once_and_wipes_it() {
    let mut canvas = Canvas::new(4, 4).unwrap();
    canvas.ink(7);
    let printed = take(&mut canvas, UICommand::Clear).unwrap();
    assert_eq!(printed[7], INK);
    assert!(canvas.is_blank());
    assert_eq!(take(&mut canvas, UICommand::Clear), None);
}

#[test]
fn quit_and_draw_leave_the_canvas_alone() {
    let mut canvas = Canvas::new(2, 2).unwrap();
    canvas.ink(0);
    assert!(matches!(render_step(&mut canvas, UICommand::Quit), RenderStep::Quit));
    match render_step(&mut canvas, UICommand::Draw(placement("x", 1, 1))) {
        RenderStep::Place(data) => assert_eq!(data, placement("x", 1, 1)),
        other => panic!("unexpected step {:?}", other),
    }
    assert_eq!(canvas.pixels(), &vec![INK, BLANK, BLANK, BLANK]);
}

#[test]
fn chat_line_to_print_job() {
    let line = "logo 10,10,2";
    assert_eq!(
        parse_string(line, &limits()),
        Some(Data { text: "logo".to_string(), x: 10, y: 10, size: 2 })
    );
    let command = match ingest_message("  logo 10,10,2\r\n", "kim", true, &limits()) {
        Ingested::Forward(command) => command,
        other => panic!("unexpected outcome {:?}", other),
    };
    match &command {
        UICommand::Draw(data) => {
            assert_eq!(data, &Data { text: "logo".to_string(), x: 10, y: 10, size: 2 })
        }
        other => panic!("unexpected command {:?}", other),
    }

    let mut canvas = Canvas::new(16, 16).unwrap();
    let mut queue: Vec<Vec<u32>> = Vec::new();
    for command in [UICommand::Clear, command, UICommand::Clear, UICommand::Clear] {
        if let Some(pixels) = take(&mut canvas, command) {
            queue.push(pixels);
        }
    }
    assert_eq!(queue.len(), 1);
    let mut expected = vec![BLANK; 256];
    expected[10 * 16 + 10] = INK;
    assert_eq!(queue[0], expected);

    let job = PrintJob::new(&queue[0], 16, 16, LABEL_QUANTITY, LABEL_TYPE, LABEL_DENSITY).unwrap();
    assert_eq!((job.width(), job.height(), job.quantity()), (16, 16, 1));
    assert_eq!(job.request_at(5 + 10).payload, vec![0, 10, 0, 1, 0, 1, 0x00, 0b0010_0000]);
    assert_eq!(job.request_at(5 + 9).payload, vec![0, 9, 0, 0, 0, 1, 0x00, 0x00]);
}

#[test]
fn rejected_message_is_answered_and_never_drawn() {
    match ingest_message("fuck 10,10,2", "kim", true, &limits()) {
        Ingested::Reply(reply) => assert_eq!(reply, ":Hey kim, i will not print that"),
        other => panic!("unexpected outcome {:?}", other),
    }
    match ingest_message("fuck 10,10,2", "kim", false, &limits()) {
        Ingested::Forward(UICommand::Draw(data)) => assert_eq!(data.text, "fuck"),
        other => panic!("unexpected outcome {:?}", other),
    }
    match ingest_message("no numbers", "kim", true, &limits()) {
        Ingested::Forward(UICommand::Draw(data)) => assert_eq!(data, Data::default()),
        other => panic!("unexpected outcome {:?}", other),
    }
}

#[test]
fn placement_choice() {
    let external = Data { text: "from outside".to_string(), x: 1, y: 2, size: 3 };
    assert_eq!(choose_placement("logo 10,10,2", Some(external.clone()), &limits()), external);
    let nameless = Data { text: String::new(), x: 1, y: 2, size: 3 };
    assert_eq!(
        choose_placement("logo 10,10,2", Some(nameless.clone()), &limits()),
        Data { text: "logo".to_string(), x: 10, y: 10, size: 2 }
    );
    assert_eq!(choose_placement("no numbers here", Some(nameless.clone()), &limits()), nameless);
    assert_eq!(choose_placement("no numbers here", None, &limits()), Data::default());
    assert_eq!(
        choose_placement("logo 10,10,2", None, &limits()),
        Data { text: "logo".to_string(), x: 10, y: 10, size: 2 }
    );
    assert_eq!(Data::default(), Data { text: String::new(), x: 0, y: 0, size: 0 });
}

#[test]
fn countdown_flushes_at_zero_and_starts_over() {
    let mut countdown = Countdown::new(3);
    assert_eq!(countdown.remaining, 3);
    let mut flushes = Vec::new();
    let mut shown = Vec::new();
    for _ in 0..9 {
        flushes.push(countdown.tick());
        shown.push(countdown.remaining);
    }
    assert_eq!(flushes, vec![false, false, false, true, false, false, false, true, false]);
    assert_eq!(shown, vec![2, 1, 0, 3, 2, 1, 0, 3, 2]);
}

#[test]
fn countdown_of_zero_flushes_every_second() {
    let mut countdown = Countdown::new(0);
    assert!(countdown.tick());
    assert!(countdown.tick());
    assert_eq!(countdown.remaining, 0);
}

#[test]
fn countdown_text() {
    let text = |remaining: u64| Countdown { period: 300, remaining }.status_text("printing starts in: ");
    assert_eq!(text(300), "printing starts in: 05:00");
    assert_eq!(text(299), "printing starts in: 04:59");
    assert_eq!(text(61), "printing starts in: 01:01");
    assert_eq!(text(9), "printing starts in: 00:09");
    assert_eq!(text(0), "printing starts in: 00:00");
    assert_eq!(text(6000), "printing starts in: 100:00");
    assert_eq!(Countdown { period: 1, remaining: 754 }.status_text(""), "12:34");
    assert_eq!(
        Countdown { period: 1, remaining: u64::MAX }.status_text("t "),
        format!("t {:02}:{:02}", u64::MAX / 60, u64::MAX % 60)
    );
}
