use rs_term::acs::AcsFilter;

fn run(chunks: &[&[u8]]) -> String {
    let mut f = AcsFilter::default();
    let mut out = Vec::new();
    for c in chunks {
        f.process(c, &mut out);
    }
    String::from_utf8(out).unwrap()
}

#[test]
fn translates_line_drawing_run() {
    // ESC ( 0  qqq  ESC ( B  -> three horizontal lines.
    assert_eq!(run(&[b"\x1b(0qqq\x1b(B"]), "───");
}

#[test]
fn corners_and_verticals() {
    // lqk / x x / mqj  -> a tiny box's characters.
    assert_eq!(run(&[b"\x1b(0lqkxxmqj\x1b(B"]), "┌─┐││└─┘");
}

#[test]
fn plain_text_untouched() {
    assert_eq!(run(&[b"hello qqq world"]), "hello qqq world");
}

#[test]
fn csi_passes_through() {
    // A colour SGR must survive verbatim, and `q` outside a run stays `q`.
    assert_eq!(run(&[b"\x1b[1;31mq\x1b[0m"]), "\x1b[1;31mq\x1b[0m");
}

#[test]
fn charset_switch_split_across_reads() {
    // Sequence and run fragmented over several buffers.
    assert_eq!(run(&[b"\x1b", b"(0q", b"q", b"q\x1b(", b"B"]), "───");
}

#[test]
fn restore_stops_translation() {
    // After ESC ( B, `q` is a literal `q` again.
    assert_eq!(run(&[b"\x1b(0q\x1b(Bq"]), "─q");
}

/// Return whether processing `chunks` reported an attention bell.
fn bell(chunks: &[&[u8]]) -> bool {
    let mut f = AcsFilter::default();
    let mut out = Vec::new();
    let mut rang = false;
    for c in chunks {
        f.process(c, &mut out);
        rang |= f.bell;
    }
    rang
}

#[test]
fn ground_bel_is_an_attention_bell() {
    assert!(bell(&[b"done\x07"]));
}

#[test]
fn osc_title_terminator_is_not_a_bell() {
    // Shells set the window title with `ESC ] 0 ; title BEL` on every prompt.
    // That terminating BEL must NOT be treated as an attention bell.
    assert!(!bell(&[b"\x1b]0;my title\x07"]));
    // …and it still isn't when split across reads.
    assert!(!bell(&[b"\x1b]2;dir", b" name\x07"]));
}

#[test]
fn bell_flag_resets_each_process_call() {
    let mut f = AcsFilter::default();
    let mut out = Vec::new();
    f.process(b"\x07", &mut out);
    assert!(f.bell);
    f.process(b"plain", &mut out);
    assert!(!f.bell);
}

#[test]
fn every_graphic_has_its_glyph() {
    let mut input: Vec<u8> = b"\x1b(0".to_vec();
    for b in 0x5f..=0x7eu8 {
        input.push(b);
    }
    assert_eq!(
        run(&[&input]),
        " ◆▒␉␌␍␊°±␤␋┘┐┌└┼⎺⎻─⎼⎽├┤┴┬│≤≥π≠£·"
    );
    // Bytes outside the table stay what they are in a line-drawing run.
    assert_eq!(run(&[b"\x1b(0AZ09^"]), "AZ09^");
}

#[test]
fn shift_selects_the_slot() {
    // G1 is designated for line drawing; only SO makes it active.
    assert_eq!(run(&[b"\x1b)0q\x0eq\x0fq"]), "q─q");
    // G2 and G3 are never active.
    assert_eq!(run(&[b"\x1b*0\x1b+0q\x0eq"]), "qq");
}

#[test]
fn other_escapes_pass_through() {
    assert_eq!(run(&[b"\x1b7a\x1bMb\x1b="]), "\x1b7a\x1bMb\x1b=");
    // An operating system command that ends in ESC \.
    assert_eq!(run(&[b"\x1b]2;t\x1b\\q"]), "\x1b]2;t\x1b\\q");
    // An ESC in it that is not followed by \ does not end it.
    assert!(!bell(&[b"\x1b]2;a\x1bb\x07"]));
    // A designation with an intermediate byte is dropped as a whole.
    assert_eq!(run(&[b"\x1b(%5x"]), "x");
}

#[test]
fn any_split_gives_the_same() {
    let input: &[u8] = b"a\x1b(0lqk\x1b[1mx\x1b(B\x07\x1b]0;t\x07z\x1b)0\x0eq";
    let whole = run(&[input]);
    assert_eq!(whole, "a┌─┐\x1b[1m│\x1b]0;t\x07z─");
    for cut in 0..=input.len() {
        assert_eq!(run(&[&input[..cut], &input[cut..]]), whole);
        assert!(bell(&[&input[..cut], &input[cut..]]));
    }
}
