use dap::eval::{
    combine_diffs, count_assistant_responses, example_extension, exercise_prompt,
    instructions_for, repo_dir_name, tool_use_total, total_tokens, Eval, EvalError, EvalResult,
    EvalSetup, Role,
};

#[test]
fn every_supported_language_has_its_extension() {
    let table = [
        ("python", "py"),
        ("go", "go"),
        ("rust", "rs"),
        ("typescript", "ts"),
        ("javascript", "js"),
        ("ruby", "rb"),
        ("php", "php"),
        ("bash", "sh"),
        ("multi", "diff"),
    ];
    for (language, extension) in table {
        assert_eq!(example_extension(language), Some(extension));
    }
}

#[test]
fn unsupported_language_has_no_extension() {
    assert_eq!(example_extension("cobol"), None);
    assert_eq!(example_extension(""), None);
    assert_eq!(example_extension("Python"), None);
}

#[test]
fn a_single_diff_is_passed_through() {
    assert_eq!(combine_diffs("staged".to_string(), String::new()), "staged");
    assert_eq!(combine_diffs(String::new(), "unstaged".to_string()), "unstaged");
    assert_eq!(combine_diffs(String::new(), String::new()), "");
}

#[test]
fn two_diffs_are_joined_under_headings() {
    assert_eq!(
        combine_diffs("+a".to_string(), "-b".to_string()),
        "# Staged changes\n+a\n\n# Unstaged changes\n-b"
    );
}

#[test]
fn prompts_open_with_the_templates_preamble() {
    assert_eq!(
        exercise_prompt("ProjectCreation", "Do it."),
        "I need to create a new implementation for this exercise. Please create all the necessary files in the best location.\n\nDo it."
    );
    assert_eq!(
        exercise_prompt("CodeModification", "Do it."),
        "I need help updating my code to meet these requirements. Please modify the appropriate files:\n\nDo it."
    );
    assert_eq!(
        exercise_prompt("ConversationalGuidance", "Do it."),
        "I'm trying to solve this coding exercise but I'm not sure where to start. Can you help me understand the requirements and guide me through the solution process without writing code for me?\n\nDo it."
    );
    assert_eq!(exercise_prompt("Other", "Do it."), "Do it.");
}

#[test]
fn records_hold_their_fields() {
    let setup = EvalSetup { url: "https://example.com/repo".to_string(), base_sha: "abc".to_string() };
    assert_eq!(setup.clone().url, "https://example.com/repo");
    let result = EvalResult {
        exercise_name: "two-fer".to_string(),
        template_name: "ProjectCreation".to_string(),
        score: "5".to_string(),
        diff: String::new(),
        assistant_response: String::new(),
        elapsed_time_ms: 12,
        timestamp: 34,
        input_tokens: 1,
        output_tokens: 2,
        total_tokens: 3,
        tool_use_counts: 0,
    };
    assert_eq!(result.clone().total_tokens, 3);
}

#[test]
fn instructions_end_with_the_language_hint() {
    assert_eq!(
        instructions_for("Write a function.".to_string(), "rust"),
        "Write a function.\n\nWhen writing the code for this prompt, use rust to achieve the goal."
    );
    assert_eq!(
        instructions_for(String::new(), ""),
        "\n\nWhen writing the code for this prompt, use  to achieve the goal."
    );
}

#[test]
fn an_eval_holds_its_setup_and_prompt() {
    let eval = Eval {
        repo_path: "/tmp/repo".to_string(),
        eval_setup: EvalSetup { url: "file:///tmp/repo".to_string(), base_sha: "deadbeef".to_string() },
        user_prompt: exercise_prompt("Other", "Do it."),
    };
    assert_eq!(eval.eval_setup.base_sha, "deadbeef");
    assert_eq!(eval.user_prompt, "Do it.");
    assert_eq!(eval.repo_path, "/tmp/repo");
}

#[test]
fn repository_urls_become_directory_names() {
    assert_eq!(
        repo_dir_name("https://github.com/zed-industries/zed"),
        "github_com_zed_industries_zed"
    );
    assert_eq!(repo_dir_name("https://https://a.b"), "a_b");
    assert_eq!(repo_dir_name("http://x.y"), "http___x_y");
    assert_eq!(repo_dir_name("ftp://https://x"), "ftp___https___x");
    assert_eq!(repo_dir_name("https://"), "");
    assert_eq!(repo_dir_name("https:/"), "https__");
    assert_eq!(repo_dir_name(""), "");
    assert_eq!(repo_dir_name("https://h\u{e9}llo/\u{4e16}\u{754c} 1"), "h\u{e9}llo_\u{4e16}\u{754c}_1");
}

#[test]
fn directory_names_agree_with_the_standard_library() {
    for url in ["https://a.b/c?d=e&f", "https://https://https://x", "plain", "https://A-Z_0.9/\u{df}"] {
        let expected =
            url.trim_start_matches("https://").replace(|c: char| !c.is_alphanumeric(), "_");
        assert_eq!(repo_dir_name(url), expected);
    }
}

#[test]
fn assistant_responses_are_counted() {
    let roles = [Role::System, Role::User, Role::Assistant, Role::User, Role::Assistant];
    assert_eq!(count_assistant_responses(&roles), Ok(2));
    assert_eq!(count_assistant_responses(&[Role::Assistant]), Ok(1));
}

#[test]
fn a_conversation_must_end_with_the_assistant() {
    assert_eq!(
        count_assistant_responses(&[Role::Assistant, Role::User]),
        Err(EvalError::LastMessageNotFromAssistant)
    );
    assert_eq!(
        count_assistant_responses(&[Role::System]),
        Err(EvalError::LastMessageNotFromAssistant)
    );
}

#[test]
fn tool_uses_and_tokens_are_added_up() {
    assert_eq!(tool_use_total(&[]), 0);
    assert_eq!(tool_use_total(&[3, 0, 4]), 7);
    assert_eq!(tool_use_total(&[u32::MAX - 1, 1]), u32::MAX);
    assert_eq!(total_tokens(0, 0), 0);
    assert_eq!(total_tokens(1200, 345), 1545);
    assert_eq!(total_tokens(u32::MAX, 0), u32::MAX);
}
