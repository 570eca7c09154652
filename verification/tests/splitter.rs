use demido_studio::stream::{StreamPiece, ThinkSplitter};

/// What a stream tells, with adjacent text of one kind joined.
fn told(tokens: &[&str]) -> Vec<(char, String)> {
    let mut s = ThinkSplitter::new();
    let mut pieces = Vec::new();
    for t in tokens {
        pieces.extend(s.feed(t));
    }
    pieces.extend(s.finish());
    let mut out: Vec<(char, String)> = Vec::new();
    for p in pieces {
        let (k, t) = match p {
            StreamPiece::Visible(t) => ('v', t),
            StreamPiece::Thinking(t) => ('t', t),
            StreamPiece::ThinkingEnd => ('e', String::new()),
        };
        if k != 'e' && t.is_empty() {
            continue;
        }
        match out.last_mut() {
            Some((lk, lt)) if *lk == k && k != 'e' => lt.push_str(&t),
            _ => out.push((k, t)),
        }
    }
    out
}

#[test]
fn reasoning_and_answer_are_split_at_the_tags() {
    let got = told(&["<think>plan</think>answer"]);
    assert_eq!(got, vec![('t', "plan".to_string()), ('e', String::new()), ('v', "answer".to_string())]);
}

#[test]
fn tags_cut_across_tokens_are_still_found() {
    let whole = told(&["Hi <think>mulling it over</think> done"]);
    let cut = told(&["Hi <th", "ink>mull", "ing it ov", "er</thi", "nk> do", "ne"]);
    let one_by_one: Vec<String> = "Hi <think>mulling it over</think> done".chars().map(|c| c.to_string()).collect();
    let refs: Vec<&str> = one_by_one.iter().map(|s| s.as_str()).collect();
    assert_eq!(whole, cut);
    assert_eq!(whole, told(&refs));
    assert_eq!(
        whole,
        vec![
            ('v', "Hi ".to_string()),
            ('t', "mulling it over".to_string()),
            ('e', String::new()),
            ('v', " done".to_string())
        ]
    );
}

#[test]
fn an_unclosed_block_ends_with_the_stream() {
    assert_eq!(told(&["<think>still go", "ing"]), vec![('t', "still going".to_string()), ('e', String::new())]);
    assert_eq!(told(&["<think>"]), Vec::<(char, String)>::new());
}

#[test]
fn multibyte_text_near_a_tag_survives_any_cut() {
    let text = "é<think>思量</think>答";
    let chars: Vec<String> = text.chars().map(|c| c.to_string()).collect();
    let refs: Vec<&str> = chars.iter().map(|s| s.as_str()).collect();
    assert_eq!(told(&[text]), told(&refs));
    assert_eq!(told(&[text])[1], ('t', "思量".to_string()));
}
