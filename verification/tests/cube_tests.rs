use memebox::cube::{draw, try_draw};

#[test]
fn draw_empty_word_is_empty() {
    assert_eq!(draw(""), "");
}

#[test]
fn draw_single_letter() {
    assert_eq!(draw("a"), "A  ");
}

#[test]
fn draw_two_letters() {
    assert_eq!(draw("ab"), "  A B \nA B A \nB A   ");
}

#[test]
fn draw_three_letters_has_no_strokes() {
    assert_eq!(
        draw("abc"),
        "  A B C  \nA B C B  \nB C B A  \nC B A    "
    );
}

#[test]
fn draw_meme() {
    assert_eq!(
        draw("meme"),
        "    M E M E \n  / E   / M \nM E M E   E \nE   E M E M \nM /   E /   \nE M E M     "
    );
}

#[test]
fn draw_hello() {
    let expected = "    H E L L O  \n  / E     / L  \nH E L L O   L  \nE   L   L   E  \nL   O L L E H  \nL /     E /    \nO L L E H      ";
    assert_eq!(draw("hello"), expected);
}

#[test]
fn draw_keeps_punctuation() {
    let expected = "    R U S T !  \n  / U     / T  \nR U S T !   S  \nU   T   T   U  \nS   ! T S U R  \nT /     U /    \n! T S U R      ";
    assert_eq!(draw("Rust!"), expected);
}

#[test]
fn draw_ignores_case_of_input() {
    assert_eq!(draw("hello"), draw("HeLLo"));
}

#[test]
fn picture_has_height_lines_of_width_cells() {
    for word in ["a", "ab", "abc", "memes", "picture"] {
        let n = word.chars().count();
        let out = draw(word);
        let lines: Vec<&str> = out.split('\n').collect();
        assert_eq!(lines.len(), n * 3 / 2);
        for line in lines {
            assert_eq!(line.chars().count(), n * 3);
        }
    }
}

#[test]
fn word_reads_along_top_edge() {
    let word = "memes";
    let n = 5;
    let out: Vec<char> = draw(word).chars().collect();
    for (i, c) in "MEMES".chars().enumerate() {
        assert_eq!(out[2 * (n / 2) + 2 * i], c);
    }
}

#[test]
fn try_draw_agrees_with_draw() {
    assert_eq!(try_draw("hello"), Some(draw("hello")));
    assert_eq!(try_draw(""), Some(String::new()));
}

#[test]
fn try_draw_refuses_word_whose_upper_case_is_longer() {
    assert_eq!(try_draw("ß"), None);
    assert_eq!(try_draw("straße"), None);
}
