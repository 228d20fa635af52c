use vidarchive::progress::{
    download_percent, generate_progress_bar, is_due, percent_tenths, Shown, PROGRESS_PATTERN,
};

fn bar_by_float(percent: f32) -> String {
    let filled = ((percent / 100.0) * 12 as f32).round() as usize;
    let filled = filled.min(12);
    format!("{}{}", "█".repeat(filled), "░".repeat(12 - filled))
}

#[test]
fn bars_have_twelve_blocks() {
    assert_eq!(generate_progress_bar(0), "░░░░░░░░░░░░");
    assert_eq!(generate_progress_bar(125), "██░░░░░░░░░░");
    assert_eq!(generate_progress_bar(500), "██████░░░░░░");
    assert_eq!(generate_progress_bar(1000), "████████████");
    assert_eq!(generate_progress_bar(u32::MAX), "████████████");
}

#[test]
fn bars_agree_with_floating_point_for_every_percentage() {
    for tenths in 0..10000u32 {
        let text = format!("{}.{}", tenths / 10, tenths % 10);
        assert_eq!(percent_tenths(&text), tenths);
        let percent: f32 = text.parse().unwrap();
        assert_eq!(generate_progress_bar(tenths), bar_by_float(percent), "{}", text);
    }
    for tenths in 0..1000u32 {
        let text = format!("{:03}.{}", tenths / 10, tenths % 10);
        assert_eq!(percent_tenths(&text), tenths);
    }
}

#[test]
fn bars_never_shrink() {
    let mut last = 0;
    for tenths in 0..1100u32 {
        let filled = generate_progress_bar(tenths).chars().filter(|c| *c == '█').count();
        assert!(last <= filled);
        last = filled;
    }
    assert_eq!(last, 12);
}

#[test]
fn percentages_in_other_digits_count_as_nothing() {
    assert_eq!(percent_tenths("٤٥.٣"), 0);
    assert!("٤٥.٣".parse::<f32>().is_err());
    assert_eq!(percent_tenths("4٥.3"), 0);
    assert_eq!(percent_tenths("45.٣"), 0);
    assert_eq!(percent_tenths(""), 0);
    assert_eq!(percent_tenths("45"), 0);
    assert_eq!(percent_tenths("1234.5"), 0);
}

#[test]
fn percentages_are_read_from_output() {
    let read = |line: &str| download_percent(line);
    assert_eq!(read("[download]  45.3% of 10.00MiB at 1.00MiB/s"), Some("45.3".to_string()));
    assert_eq!(read("[download] 100.0% of 10.00MiB"), Some("100.0".to_string()));
    assert_eq!(read("[download]\t\u{3000}7.0%"), Some("7.0".to_string()));
    assert_eq!(read("[download] ٤٥.٣%"), Some("٤٥.٣".to_string()));
    assert_eq!(read("[download] x [download] 1.5% [download] 2.5%"), Some("1.5".to_string()));
    assert_eq!(read("[download] 100% of 10.00MiB"), None);
    assert_eq!(read("[download]45.3%"), None);
    assert_eq!(read("[download] 1234.5%"), None);
    assert_eq!(read("[download] 45.33%"), None);
    assert_eq!(read("[Download] 45.3%"), None);
    assert_eq!(read("[download] Destination: downloads/1_raw.mp4"), None);
    assert_eq!(read(""), None);
}

/// What the pattern means, spelled out: the percentage of the first report.
fn captured_by_hand(line: &str) -> Option<String> {
    let c: Vec<char> = line.chars().collect();
    let tag: Vec<char> = "[download]".chars().collect();
    let digit = |c: char| c.is_ascii_digit() || ('٠'..='٩').contains(&c);
    for i in 0..c.len() {
        if !c[i..].starts_with(&tag) {
            continue;
        }
        let mut j = i + tag.len();
        while j < c.len() && c[j].is_whitespace() {
            j += 1;
        }
        if j == i + tag.len() {
            continue;
        }
        let mut k = j;
        while k < c.len() && digit(c[k]) {
            k += 1;
        }
        if (1..=3).contains(&(k - j)) && k + 2 < c.len() && c[k] == '.' && digit(c[k + 1]) && c[k + 2] == '%' {
            return Some(c[j..k + 2].iter().collect());
        }
    }
    None
}

#[test]
fn the_pattern_means_what_is_stated_of_it() {
    let re = regex::Regex::new(PROGRESS_PATTERN).unwrap();
    let pieces = ["[download]", " ", "\u{2028}", "4", "٣", ".", "%", "x"];
    let n = pieces.len();
    for code in 0..n.pow(6) {
        let mut line = String::from("[download] ");
        let mut rest = code;
        for _ in 0..6 {
            line.push_str(pieces[rest % n]);
            rest /= n;
        }
        let by_crate = re.captures(&line).map(|c| c[1].to_string());
        assert_eq!(by_crate, captured_by_hand(&line), "{:?}", line);
    }
}

#[test]
fn updates_are_paced() {
    let second = 1_000_000_000u128;
    let pct = "45.3".to_string();
    assert!(is_due(&None, &pct, 0));
    let shown = Some(Shown { pct: "45.2".to_string(), at: second });
    assert!(!is_due(&shown, &pct, 3 * second));
    assert!(is_due(&shown, &pct, 3 * second + 1));
    assert!(!is_due(&shown, &pct, 0));
    let same = Some(Shown { pct: "45.3".to_string(), at: 0 });
    assert!(!is_due(&same, &pct, 60 * second));
}
