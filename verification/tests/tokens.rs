use rush::tokens::{parse_command, tokenize_commands, tokenize_group, DependentCommand};
use rush::words::{is_whitespace, split_words};

fn shape(plan: &Vec<Vec<DependentCommand>>) -> Vec<Vec<(Vec<String>, bool)>> {
    plan.iter()
        .map(|group| group.iter().map(|c| (c.tokens.clone(), c.background)).collect())
        .collect()
}

fn cmd(tokens: &[&str], background: bool) -> (Vec<String>, bool) {
    (tokens.iter().map(|t| t.to_string()).collect(), background)
}

#[test]
fn empty_line_gives_empty_plan() {
    assert!(tokenize_commands("").is_empty());
}

#[test]
fn blank_line_gives_empty_plan() {
    assert!(tokenize_commands("   \t  ").is_empty());
}

#[test]
fn delimiters_alone_give_empty_plan() {
    assert!(tokenize_commands(";").is_empty());
    assert!(tokenize_commands(";;;").is_empty());
    assert!(tokenize_commands("&&").is_empty());
    assert!(tokenize_commands(" ; && ; && && ").is_empty());
}

#[test]
fn lone_background_mark_gives_no_command() {
    assert!(tokenize_commands("&").is_empty());
    assert!(tokenize_commands("  &  ").is_empty());
    assert_eq!(shape(&tokenize_commands("& ; ls")), vec![vec![cmd(&["ls"], false)]]);
}

#[test]
fn plain_line_is_one_command() {
    let plan = tokenize_commands("ls -la /tmp");
    assert_eq!(shape(&plan), vec![vec![cmd(&["ls", "-la", "/tmp"], false)]]);
}

#[test]
fn plain_line_tokens_equal_whitespace_split() {
    let line = "  grep  -rn\tneedle   ./src ";
    let plan = tokenize_commands(line);
    assert_eq!(plan.len(), 1);
    assert_eq!(plan[0].len(), 1);
    let expected: Vec<String> = line.split_whitespace().map(|t| t.to_string()).collect();
    assert_eq!(plan[0][0].tokens, expected);
    assert!(!plan[0][0].background);
}

#[test]
fn chain_delimiter_splits_within_group() {
    let plan = tokenize_commands("true && false && echo x");
    assert_eq!(
        shape(&plan),
        vec![vec![cmd(&["true"], false), cmd(&["false"], false), cmd(&["echo", "x"], false)]]
    );
}

#[test]
fn group_delimiter_splits_groups() {
    let plan = tokenize_commands("false ; echo y");
    assert_eq!(shape(&plan), vec![vec![cmd(&["false"], false)], vec![cmd(&["echo", "y"], false)]]);
}

#[test]
fn delimiters_need_no_spaces() {
    let plan = tokenize_commands("a&&b;c");
    assert_eq!(
        shape(&plan),
        vec![vec![cmd(&["a"], false), cmd(&["b"], false)], vec![cmd(&["c"], false)]]
    );
}

#[test]
fn chain_delimiter_is_taken_from_the_left() {
    let plan = tokenize_commands("a &&& b");
    assert_eq!(shape(&plan), vec![vec![cmd(&["a"], false), cmd(&["&", "b"], false)]]);
}

#[test]
fn empty_segments_are_skipped() {
    let plan = tokenize_commands(";; a && && b ;  ; && ; c");
    assert_eq!(
        shape(&plan),
        vec![vec![cmd(&["a"], false), cmd(&["b"], false)], vec![cmd(&["c"], false)]]
    );
}

#[test]
fn trailing_mark_sets_background() {
    let plan = tokenize_commands("sleep 5 &");
    assert_eq!(shape(&plan), vec![vec![cmd(&["sleep", "5"], true)]]);
}

#[test]
fn mark_in_the_middle_is_an_argument() {
    let plan = tokenize_commands("echo & x");
    assert_eq!(shape(&plan), vec![vec![cmd(&["echo", "&", "x"], false)]]);
}

#[test]
fn only_the_last_mark_is_stripped() {
    let plan = tokenize_commands("echo & &");
    assert_eq!(shape(&plan), vec![vec![cmd(&["echo", "&"], true)]]);
}

#[test]
fn mark_glued_to_a_token_is_an_argument() {
    let plan = tokenize_commands("sleep 5&");
    assert_eq!(shape(&plan), vec![vec![cmd(&["sleep", "5&"], false)]]);
}

#[test]
fn background_in_chain_and_groups() {
    let plan = tokenize_commands("make & ; sleep 1 & && echo done");
    assert_eq!(
        shape(&plan),
        vec![
            vec![cmd(&["make"], true)],
            vec![cmd(&["sleep", "1"], true), cmd(&["echo", "done"], false)]
        ]
    );
}

#[test]
fn tokenizing_twice_gives_the_same_plan() {
    let line = "cd /tmp && ls -l ; sleep 3 & ; exit";
    let first = tokenize_commands(line);
    let second = tokenize_commands(line);
    assert_eq!(first, second);
    assert_eq!(shape(&first), shape(&second));
}

#[test]
fn every_group_and_command_is_non_empty() {
    for line in ["", ";", "a;;b", "&& a && ; & ; b &", "x && && y", " \t "] {
        let plan = tokenize_commands(line);
        for group in &plan {
            assert!(!group.is_empty());
            for command in group {
                assert!(!command.tokens.is_empty());
            }
        }
    }
}

#[test]
fn unicode_whitespace_separates_tokens() {
    let plan = tokenize_commands("a\u{3000}b\u{a0}c\u{2003}d\u{85}e");
    assert_eq!(shape(&plan), vec![vec![cmd(&["a", "b", "c", "d", "e"], false)]]);
}

#[test]
fn multibyte_tokens_are_kept_whole() {
    let plan = tokenize_commands("echo héllo ; echo 日本語 && echo ⮡");
    assert_eq!(
        shape(&plan),
        vec![
            vec![cmd(&["echo", "héllo"], false)],
            vec![cmd(&["echo", "日本語"], false), cmd(&["echo", "⮡"], false)]
        ]
    );
}

#[test]
fn split_words_matches_std() {
    for text in ["", " ", "a", " a ", "a b", "\ta\n b\r\nc  ", "x\u{2028}y\u{1680}z", "&& ; &"] {
        let expected: Vec<String> = text.split_whitespace().map(|t| t.to_string()).collect();
        assert_eq!(split_words(text), expected);
    }
}

#[test]
fn is_whitespace_matches_std_on_every_char() {
    let mut code: u32 = 0;
    while code <= 0x10FFFF {
        if let Some(c) = char::from_u32(code) {
            assert_eq!(is_whitespace(c), c.is_whitespace(), "U+{:04X}", code);
        }
        code += 1;
    }
}

#[test]
fn parse_command_cases() {
    assert_eq!(parse_command(""), None);
    assert_eq!(parse_command("   "), None);
    assert_eq!(parse_command(" & "), None);
    let plain = parse_command(" ls  -l ").unwrap();
    assert_eq!((plain.tokens, plain.background), cmd(&["ls", "-l"], false));
    let back = parse_command("ls -l &").unwrap();
    assert_eq!((back.tokens, back.background), cmd(&["ls", "-l"], true));
}

#[test]
fn tokenize_group_cases() {
    assert!(tokenize_group("").is_empty());
    assert!(tokenize_group("&&&&").is_empty());
    let group = tokenize_group("a b&&c &");
    assert_eq!(group.len(), 2);
    assert_eq!((group[0].tokens.clone(), group[0].background), cmd(&["a", "b"], false));
    assert_eq!((group[1].tokens.clone(), group[1].background), cmd(&["c"], true));
    let kept = tokenize_group("a ; b");
    assert_eq!(kept.len(), 1);
    assert_eq!((kept[0].tokens.clone(), kept[0].background), cmd(&["a", ";", "b"], false));
}
