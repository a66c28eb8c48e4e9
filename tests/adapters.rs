use babelbye::adapters::{
    completions_url, system_prompt, translate_url, translation_from_reply, GithubFeedbackAdapter,
    MockFeedbackAdapter, MockTranslationAdapter,
};
use babelbye::domain::{response_status, ConnectionStatus};

#[test]
fn mock_translation_tags_the_locale() {
    assert_eq!(MockTranslationAdapter::new().translate("hello", "fr"), "[fr] hello");
}

#[test]
fn mock_feedback_files_nothing() {
    assert_eq!(MockFeedbackAdapter::new().create_issue("t", "b"), None);
}

#[test]
fn github_request_parts() {
    let g = GithubFeedbackAdapter::new("owner/repo".to_string(), "tok".to_string());
    assert_eq!(g.issues_url(), "https://api.github.com/repos/owner/repo/issues");
    assert_eq!(g.authorization(), "Bearer tok");
}

#[test]
fn endpoints_are_appended_once() {
    assert_eq!(translate_url("http://lt:5000"), "http://lt:5000/translate");
    assert_eq!(translate_url("http://lt:5000//"), "http://lt:5000/translate");
    assert_eq!(translate_url("http://lt/translate/"), "http://lt/translate");
    assert_eq!(completions_url("https://api.openai.com/v1"), "https://api.openai.com/v1/chat/completions");
    assert_eq!(completions_url("https://x/chat/completions"), "https://x/chat/completions");
    assert_eq!(completions_url(""), "/chat/completions");
}

#[test]
fn prompt_names_the_locale() {
    assert_eq!(
        system_prompt("de"),
        "You are a translation engine. Translate the user's text into de. Return only the translated text without quotes or commentary."
    );
}

#[test]
fn reply_content_is_trimmed_and_must_not_be_blank() {
    assert_eq!(translation_from_reply(Some("  bonjour \n")), Some("bonjour".to_string()));
    assert_eq!(translation_from_reply(Some("   ")), None);
    assert_eq!(translation_from_reply(None), None);
}

#[test]
fn connection_status_text() {
    assert_eq!(response_status(true), ConnectionStatus::Accepted);
    assert_eq!(response_status(false), ConnectionStatus::Declined);
    assert_eq!(ConnectionStatus::from_text("accepted"), ConnectionStatus::Accepted);
    assert_eq!(ConnectionStatus::from_text("declined"), ConnectionStatus::Declined);
    assert_eq!(ConnectionStatus::from_text("pending"), ConnectionStatus::Pending);
    assert_eq!(ConnectionStatus::from_text("other"), ConnectionStatus::Pending);
    assert_eq!(ConnectionStatus::Accepted.as_text(), "accepted");
    assert_eq!(ConnectionStatus::Pending.as_text(), "pending");
    assert_eq!(ConnectionStatus::Declined.as_text(), "declined");
}
