use jerm::tokenizer::{TokenType, Tokenizer};

#[test]
fn test_tokenize_simple_command() {
    let tokens = Tokenizer::tokenize("git status");
    assert_eq!(tokens.len(), 3);
    assert_eq!(tokens[0].token_type, TokenType::Command);
    assert_eq!(tokens[0].text, "git");
    assert_eq!(tokens[1].token_type, TokenType::Whitespace);
    assert_eq!(tokens[2].token_type, TokenType::Text);
    assert_eq!(tokens[2].text, "status");
}

#[test]
fn test_tokenize_with_flags() {
    let tokens = Tokenizer::tokenize("ls -la --color");
    assert_eq!(tokens[0].token_type, TokenType::Command);
    assert_eq!(tokens[2].token_type, TokenType::Flag);
    assert_eq!(tokens[2].text, "-la");
    assert_eq!(tokens[4].token_type, TokenType::Flag);
    assert_eq!(tokens[4].text, "--color");
}

#[test]
fn test_tokenize_with_path() {
    let tokens = Tokenizer::tokenize("cd ~/projects");
    assert_eq!(tokens[0].token_type, TokenType::Command);
    assert_eq!(tokens[2].token_type, TokenType::Path);
    assert_eq!(tokens[2].text, "~/projects");
}

#[test]
fn test_tokenize_with_string() {
    let tokens = Tokenizer::tokenize("echo \"hello world\"");
    assert_eq!(tokens[0].token_type, TokenType::Command);
    assert_eq!(tokens[2].token_type, TokenType::String);
    assert_eq!(tokens[2].text, "\"hello world\"");
}

#[test]
fn test_tokenize_with_pipe() {
    let tokens = Tokenizer::tokenize("ls | grep foo");
    assert_eq!(tokens[0].token_type, TokenType::Command);
    assert_eq!(tokens[2].token_type, TokenType::Operator);
    assert_eq!(tokens[2].text, "|");
    assert_eq!(tokens[4].token_type, TokenType::Command);
    assert_eq!(tokens[4].text, "grep");
}

#[test]
fn test_tokenize_with_and() {
    let tokens = Tokenizer::tokenize("make && make install");
    assert_eq!(tokens[0].token_type, TokenType::Command);
    assert_eq!(tokens[2].token_type, TokenType::Operator);
    assert_eq!(tokens[2].text, "&&");
    assert_eq!(tokens[4].token_type, TokenType::Command);
}

#[test]
fn test_tokenize_with_number() {
    let tokens = Tokenizer::tokenize("sleep 5");
    assert_eq!(tokens[0].token_type, TokenType::Command);
    assert_eq!(tokens[2].token_type, TokenType::Number);
    assert_eq!(tokens[2].text, "5");
}

#[test]
fn test_tokenize_complex() {
    let tokens = Tokenizer::tokenize("git commit -m \"test message\" --amend");
    assert_eq!(tokens[0].token_type, TokenType::Command);
    assert_eq!(tokens[0].text, "git");
    let m_flag = tokens.iter().find(|t| t.text == "-m").unwrap();
    assert_eq!(m_flag.token_type, TokenType::Flag);
    let string = tokens.iter().find(|t| t.text.contains("test")).unwrap();
    assert_eq!(string.token_type, TokenType::String);
    let amend = tokens.iter().find(|t| t.text == "--amend").unwrap();
    assert_eq!(amend.token_type, TokenType::Flag);
}

#[test]
fn test_tokenize_empty() {
    let tokens = Tokenizer::tokenize("");
    assert!(tokens.is_empty());
}

#[test]
fn test_tokenize_redirect() {
    let tokens = Tokenizer::tokenize("echo test > file.txt");
    let redirect = tokens.iter().find(|t| t.text == ">").unwrap();
    assert_eq!(redirect.token_type, TokenType::Operator);
    let path = tokens.iter().find(|t| t.text == "file.txt").unwrap();
    assert_eq!(path.token_type, TokenType::Text);
}

fn joined(line: &str) -> String {
    Tokenizer::tokenize(line).iter().map(|t| t.text.as_str()).collect()
}

#[test]
fn round_trip_on_assorted_lines() {
    for line in [
        "",
        "   ",
        "git status",
        "ls -la | grep 'x y' && echo \"unterminated",
        "a>>b||c;d&e<f",
        "  ünïcödé  日本語 -1.5 ./run ~/x  ",
        "tab\tseparated\u{3000}wide space",
    ] {
        assert_eq!(joined(line), line);
    }
}

#[test]
fn multi_character_operators_win() {
    let tokens = Tokenizer::tokenize("a||b>>c");
    let texts: Vec<&str> = tokens.iter().map(|t| t.text.as_str()).collect();
    assert_eq!(texts, vec!["a", "||", "b", ">>", "c"]);
    assert_eq!(tokens[2].token_type, TokenType::Command);
    assert_eq!(tokens[4].token_type, TokenType::Text);
}

#[test]
fn negative_numbers_and_lone_dash() {
    let tokens = Tokenizer::tokenize("x -5 -1.5 -a1 - 3.14");
    assert_eq!(tokens[2].token_type, TokenType::Number);
    assert_eq!(tokens[4].token_type, TokenType::Number);
    assert_eq!(tokens[6].token_type, TokenType::Flag);
    assert_eq!(tokens[8].token_type, TokenType::Text);
    assert_eq!(tokens[10].token_type, TokenType::Number);
}

#[test]
fn unterminated_quote_runs_to_end() {
    let tokens = Tokenizer::tokenize("echo 'abc def");
    assert_eq!(tokens.len(), 3);
    assert_eq!(tokens[2].token_type, TokenType::String);
    assert_eq!(tokens[2].text, "'abc def");
}

#[test]
fn whitespace_run_is_one_token() {
    let tokens = Tokenizer::tokenize("a \t  b");
    assert_eq!(tokens.len(), 3);
    assert_eq!(tokens[1].text, " \t  ");
    assert_eq!(tokens[1].token_type, TokenType::Whitespace);
}

#[test]
fn string_clears_expect_command() {
    let tokens = Tokenizer::tokenize("; 'x' y");
    assert_eq!(tokens[0].token_type, TokenType::Operator);
    assert_eq!(tokens[2].token_type, TokenType::String);
    assert_eq!(tokens[4].token_type, TokenType::Text);
}
