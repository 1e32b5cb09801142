use goodreads_search::{split, SeriesInfo, Volume};
use regex::Regex;

fn info(name: &str, volume: u64) -> SeriesInfo {
    SeriesInfo::new(name.to_string(), Volume::whole(volume))
}

fn part(name: &str, whole: u64, fraction: &str) -> SeriesInfo {
    SeriesInfo::new(name.to_string(), Volume::new(whole, fraction).unwrap())
}

fn whole(text: &str) -> (String, Option<Vec<SeriesInfo>>) {
    (text.to_string(), None)
}

#[test]
fn split_gives_the_same_for_the_same_text() {
    for text in ["Neverwhere (London Below, #1)", "Bedlam", "", "X (not a series marker)"] {
        assert_eq!(split(text), split(&text.to_string()));
    }
}

#[test]
fn volume_is_read_as_a_number() {
    let (_, series) = split("Bedlam (Skulduggery Pleasant, #12)");
    let series = series.unwrap();
    assert_eq!(series.len(), 1);
    assert_eq!(series[0].name(), "Skulduggery Pleasant");
    assert_eq!(series[0].volume(), Volume::whole(12));
    assert_eq!(series[0].volume().line().parse::<f32>(), Ok(12.0));
    assert_eq!(split("The Hobbit (The Lord of the Rings, #0)").1, Some(vec![info("The Lord of the Rings", 0)]));
    assert_eq!(split("T (S #007)").1, Some(vec![info("S", 7)]));
}

#[test]
fn title_is_as_long_as_it_can_be() {
    assert_eq!(
        split("A (B) (C #1)"),
        ("A (B)".to_string(), Some(vec![info("C", 1)]))
    );
    assert_eq!(
        split("Title (x (y #1)"),
        ("Title (x".to_string(), Some(vec![info("y", 1)]))
    );
    assert_eq!(split("A (S #1) (not one)"), whole("A (S #1) (not one)"));
}

#[test]
fn text_that_does_not_split_is_the_title() {
    for text in [
        "",
        " ",
        "()",
        "(S #1)",
        " (S #1)",
        "Title(S #1)",
        "Title (S #1) ",
        "Title (S #1",
        "Title S #1)",
        "Title ()",
        "Title (#1)",
        "Title (S #)",
        "Title (S 1)",
        "Title (S #x1)",
        "Title ( #1)",
        "Title (, #1)",
    ] {
        assert_eq!(split(text), whole(text), "{:?}", text);
    }
}

#[test]
fn separator_may_be_any_white_space() {
    assert_eq!(split("T\t(S #1)"), ("T".to_string(), Some(vec![info("S", 1)])));
    assert_eq!(split("T\n(S #1)"), ("T".to_string(), Some(vec![info("S", 1)])));
    assert_eq!(split("T\u{a0}(S #1)"), ("T".to_string(), Some(vec![info("S", 1)])));
    assert_eq!(split("T  (S #1)"), ("T ".to_string(), Some(vec![info("S", 1)])));
}

#[test]
fn names_are_cleaned() {
    assert_eq!(split("T (  S  ,, , #1)").1, Some(vec![info("S", 1)]));
    assert_eq!(split("T (  S  ,; , #1)"), whole("T (  S  ,; , #1)"));
    assert_eq!(split("T (A, B #1)").1, Some(vec![info("A, B", 1)]));
    assert_eq!(split("T (, A #1)").1, Some(vec![info(", A", 1)]));
    assert_eq!(split("T (C# Programming #3)").1, Some(vec![info("Programming", 3)]));
    assert_eq!(split("T (A ## B #2)").1, Some(vec![info("B", 2)]));
}

#[test]
fn pieces_are_read_one_by_one() {
    assert_eq!(
        split("T (A #1;B #2 ; C #3;)").1,
        Some(vec![info("A", 1), info("B", 2), info("C", 3)])
    );
    assert_eq!(split("T (A #1; nothing; C #3)").1, Some(vec![info("A", 1), info("C", 3)]));
    assert_eq!(split("T (A #1 B #2)").1, Some(vec![info("A", 1)]));
    assert_eq!(split("T (;;A #1.5;;)").1, Some(vec![part("A", 1, "5")]));
    assert_eq!(split("T (one; two)"), whole("T (one; two)"));
}

#[test]
fn volume_that_does_not_fit_states_no_membership() {
    assert_eq!(
        split("T (S #18446744073709551615)").1,
        Some(vec![info("S", u64::MAX)])
    );
    assert_eq!(split("T (S #18446744073709551616)"), whole("T (S #18446744073709551616)"));
    assert_eq!(
        split("T (S #99999999999999999999999; R #2)").1,
        Some(vec![info("R", 2)])
    );
    assert_eq!(split("T (S #٣)"), whole("T (S #٣)"));
}

fn read_with_patterns(text: &str) -> (String, Option<Vec<SeriesInfo>>) {
    let outer = Regex::new(r"(?s)^(.*)\s\((.*)\)$").unwrap();
    let entry = Regex::new(r"([^#]+)#([0-9]+)(?:\.([0-9]+))?").unwrap();
    let Some(captures) = outer.captures(text) else {
        return (text.to_string(), None);
    };
    let mut list = vec![];
    for piece in captures.get(2).unwrap().as_str().split(';') {
        if let Some(found) = entry.captures(piece) {
            let name = found
                .get(1)
                .unwrap()
                .as_str()
                .trim_start()
                .trim_end_matches(|c: char| c.is_whitespace() || c == ',' || c == ';');
            let fraction = found.get(3).map_or("", |digits| digits.as_str());
            if let (false, Ok(whole)) = (name.is_empty(), found.get(2).unwrap().as_str().parse::<u64>()) {
                list.push(SeriesInfo::new(name.to_string(), Volume::new(whole, fraction).unwrap()));
            }
        }
    }
    let title = captures.get(1).unwrap().as_str();
    if list.is_empty() || title.is_empty() {
        (text.to_string(), None)
    } else {
        (title.to_string(), Some(list))
    }
}

#[test]
fn split_reads_as_the_patterns_read() {
    let parts = ["T", " ", "(", ")", "#", "1", ";", ",", "\n", "a b", "20", "\u{2003}", ".", "0", "#3."];
    let mut texts: Vec<String> = vec![
        "Neverwhere (London Below, #1)".to_string(),
        "The Colour of Magic (Discworld #1; Rincewind #1)".to_string(),
        "Bedlam".to_string(),
        "X (not a series marker)".to_string(),
        "Harry Potter and the Sorcerer's Stone (Harry Potter, #1)".to_string(),
        "Edgedancer (The Stormlight Archive, #2.5)".to_string(),
        "Novella (Saga #0.5)".to_string(),
        "T (A #1.50; B #2.; C #3.x; D #4.0.5; E #.5; F #00.050)".to_string(),
    ];
    let mut state: u32 = 12345;
    for _ in 0..4000 {
        let mut text = String::new();
        state = state.wrapping_mul(1664525).wrapping_add(1013904223);
        let len = 1 + (state >> 24) % 10;
        for _ in 0..len {
            state = state.wrapping_mul(1664525).wrapping_add(1013904223);
            text.push_str(parts[((state >> 16) as usize) % parts.len()]);
        }
        texts.push(text);
    }
    for text in &texts {
        assert_eq!(split(text), read_with_patterns(text), "{:?}", text);
    }
}

#[test]
fn volume_may_have_a_fraction() {
    assert_eq!(split("Novella (Saga #0.5)"), ("Novella".to_string(), Some(vec![part("Saga", 0, "5")])));
    assert_eq!(
        split("Edgedancer (The Stormlight Archive, #2.5)"),
        ("Edgedancer".to_string(), Some(vec![part("The Stormlight Archive", 2, "5")]))
    );
    assert_eq!(split("T (S #2.50)").1, Some(vec![part("S", 2, "5")]));
    assert_eq!(split("T (S #2.0)").1, Some(vec![info("S", 2)]));
    assert_eq!(split("T (S #2.)").1, Some(vec![info("S", 2)]));
    assert_eq!(split("T (S #2.x)").1, Some(vec![info("S", 2)]));
    assert_eq!(split("T (S #2.5.7)").1, Some(vec![part("S", 2, "5")]));
    assert_eq!(split("T (S #0.05)").1, Some(vec![part("S", 0, "05")]));
    assert_eq!(split("T (S #1.5; R #0.5)").1, Some(vec![part("S", 1, "5"), part("R", 0, "5")]));
    assert_eq!(split("T (S #.5)"), whole("T (S #.5)"));
    assert_eq!(
        split("T (S #1.99999999999999999999999999)").1,
        Some(vec![part("S", 1, "99999999999999999999999999")])
    );
    let (_, series) = split("Novella (Saga #0.5)");
    assert_eq!(series.unwrap()[0].volume().line().parse::<f32>(), Ok(0.5));
}

#[test]
fn line_feeds_are_characters_like_others() {
    assert_eq!(split("Title\n (S #1)"), ("Title\n".to_string(), Some(vec![info("S", 1)])));
    assert_eq!(split("Title (S\n#1)"), ("Title".to_string(), Some(vec![info("S", 1)])));
    assert_eq!(split("Tit\nle\n(S #1)"), ("Tit\nle".to_string(), Some(vec![info("S", 1)])));
    assert_eq!(split("A\nB"), whole("A\nB"));
}
