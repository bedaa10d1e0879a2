use rtools::fortune::{pick_fortune, Fortune};
use rtools::pattern::{find_lines, name_filter, type_filter, EntryType, Pattern};

fn lines_of(text: &str) -> Vec<String> {
    text.split_inclusive('\n').map(|l| l.to_string()).collect()
}

#[test]
fn test_find_lines() {
    let text = lines_of("Lorem\nIpsum\r\nDOLOR");

    // The pattern _or_ should match the one line, "Lorem"
    let re1 = Pattern::new("or", false).unwrap();
    let matches = find_lines(&text, &re1, false);
    assert_eq!(matches.len(), 1);

    // When inverted, the function should match the other two lines
    let matches = find_lines(&text, &re1, true);
    assert_eq!(matches.len(), 2);

    // This regex will be case-insensitive
    let re2 = Pattern::new("or", true).unwrap();

    // The two lines "Lorem" and "DOLOR" should match
    let matches = find_lines(&text, &re2, false);
    assert_eq!(matches.len(), 2);

    // When inverted, the one remaining line should match
    let matches = find_lines(&text, &re2, true);
    assert_eq!(matches.len(), 1);
}

#[test]
fn find_lines_keeps_lines_verbatim_and_in_order() {
    let text = lines_of("foo\nbar\r\nfood\n");
    let re = Pattern::new("^fo", false).unwrap();
    assert_eq!(find_lines(&text, &re, false), vec!["foo\n".to_string(), "food\n".to_string()]);
    assert_eq!(find_lines(&text, &re, true), vec!["bar\r\n".to_string()]);
    assert!(Pattern::new("(", false).is_none());
}

#[test]
fn entry_filters() {
    assert!(type_filter(&vec![], false, true, false));
    assert!(type_filter(&vec![EntryType::File, EntryType::Dir], true, false, false));
    assert!(!type_filter(&vec![EntryType::Link], false, true, false));
    assert!(type_filter(&vec![EntryType::Link], false, false, true));

    let csv = Pattern::new("\\.csv$", false).unwrap();
    let txt = Pattern::new("\\.txt$", false).unwrap();
    assert!(name_filter(&vec![], "a.md"));
    assert!(name_filter(&vec![csv, txt], "b.txt"));
    let csv = Pattern::new("\\.csv$", false).unwrap();
    assert!(!name_filter(&vec![csv], "b.txt"));
}

#[test]
fn test_pick_fortune() {
    // Create a slice of fortunes
    let fortunes = &[
        Fortune {
            source: "fortunes".to_string(),
            text: "You cannot achieve the impossible without \
                  attempting the absurd."
                .to_string(),
        },
        Fortune {
            source: "fortunes".to_string(),
            text: "Assumption is the mother of all screw-ups.".to_string(),
        },
        Fortune {
            source: "fortunes".to_string(),
            text: "Neckties strangle clear thinking.".to_string(),
        },
    ];

    // Pick a fortune with a seed
    assert_eq!(
        pick_fortune(fortunes, Some(1)).unwrap(),
        "Neckties strangle clear thinking.".to_string()
    );
}

#[test]
fn pick_fortune_edges() {
    assert_eq!(pick_fortune(&[], Some(3)), None);
    assert_eq!(pick_fortune(&[], None), None);
    let one = [Fortune { source: "s".to_string(), text: "only".to_string() }];
    assert_eq!(pick_fortune(&one, None), Some("only".to_string()));
    assert_eq!(pick_fortune(&one, Some(7)), Some("only".to_string()));
}
