use vstd::prelude::*;

verus! {

/// A translator for development: tags the text with the target locale.
#[derive(Clone, Copy, Debug, PartialEq, Eq, Structural)]
pub struct MockTranslationAdapter;

impl MockTranslationAdapter {
    pub fn new() -> (r: MockTranslationAdapter) {
        MockTranslationAdapter
    }

    /// `[locale] text`.
    pub fn translate(&self, text: &str, target_locale: &str) -> (r: String)
        ensures
            r@ == "["@ + target_locale@ + "] "@ + text@,
    {
        let mut r = String::from_str("[");
        r.append(target_locale);
        r.append("] ");
        r.append(text);
        r
    }
}

/// A feedback sink for development: files nothing.
#[derive(Clone, Copy, Debug, PartialEq, Eq, Structural)]
pub struct MockFeedbackAdapter;

impl MockFeedbackAdapter {
    pub fn new() -> (r: MockFeedbackAdapter) {
        MockFeedbackAdapter
    }

    /// Files nothing, so there is no link to the issue.
    pub fn create_issue(&self, title: &str, body: &str) -> (r: Option<String>)
        ensures
            r is None,
    {
        None
    }
}

/// Files feedback as issues of a GitHub repository.
#[derive(Clone, Debug, PartialEq, Eq)]
pub struct GithubFeedbackAdapter {
    pub repo: String,
    pub token: String,
}

impl GithubFeedbackAdapter {
    pub fn new(repo: String, token: String) -> (r: GithubFeedbackAdapter)
        ensures
            r.repo == repo,
            r.token == token,
    {
        GithubFeedbackAdapter { repo, token }
    }

    /// The endpoint that creates an issue in the repository.
    pub fn issues_url(&self) -> (r: String)
        ensures
            r@ == "https://api.github.com/repos/"@ + self.repo@ + "/issues"@,
    {
        let mut r = String::from_str("https://api.github.com/repos/");
        r.append(self.repo.as_str());
        r.append("/issues");
        r
    }

    /// The `Authorization` header value that carries the token.
    pub fn authorization(&self) -> (r: String)
        ensures
            r@ == "Bearer "@ + self.token@,
    {
        let mut r = String::from_str("Bearer ");
        r.append(self.token.as_str());
        r
    }
}

/// `s` without its trailing slashes.
pub open spec fn trim_slashes(s: Seq<char>) -> Seq<char>
    decreases s.len(),
{
    if s.len() > 0 && s.last() == '/' {
        trim_slashes(s.drop_last())
    } else {
        s
    }
}

/// The endpoint `suffix` under `base`: `base` without trailing slashes, with
/// `suffix` appended unless it already ends with it.
pub open spec fn endpoint(base: Seq<char>, suffix: Seq<char>) -> Seq<char> {
    let t = trim_slashes(base);
    if suffix.is_suffix_of(t) {
        t
    } else {
        t + suffix
    }
}

fn trimmed_len(s: &str) -> (r: usize)
    ensures
        r <= s@.len(),
        trim_slashes(s@) == s@.subrange(0, r as int),
{
    let mut i: usize = s.unicode_len();
    assert(s@.subrange(0, i as int) =~= s@);
    while i > 0 && s.get_char(i - 1) == '/'
        invariant
            i <= s@.len(),
            trim_slashes(s@) == trim_slashes(s@.subrange(0, i as int)),
        decreases i,
    {
        assert(s@.subrange(0, i as int).drop_last() =~= s@.subrange(0, i as int - 1));
        i = i - 1;
    }
    i
}

fn ends_with(s: &str, suffix: &str) -> (r: bool)
    ensures
        r == suffix@.is_suffix_of(s@),
{
    let n = s.unicode_len();
    let m = suffix.unicode_len();
    if m > n {
        return false;
    }
    let mut k: usize = 0;
    while k < m
        invariant
            m <= n,
            n == s@.len(),
            m == suffix@.len(),
            k <= m,
            forall|j: int| 0 <= j < k ==> s@[n - m + j] == suffix@[j],
        decreases m - k,
    {
        if s.get_char(n - m + k) != suffix.get_char(k) {
            assert(s@.subrange(n - m, n as int)[k as int] != suffix@[k as int]);
            return false;
        }
        k = k + 1;
    }
    assert(s@.subrange(n - m, n as int) =~= suffix@);
    true
}

fn endpoint_url(base: &str, suffix: &str) -> (r: String)
    ensures
        r@ == endpoint(base@, suffix@),
{
    let t = trimmed_len(base);
    let trimmed = base.substring_char(0, t);
    if ends_with(trimmed, suffix) {
        String::from_str(trimmed)
    } else {
        let mut r = String::from_str(trimmed);
        r.append(suffix);
        r
    }
}

/// The translation endpoint of a LibreTranslate server at `base_url`.
pub fn translate_url(base_url: &str) -> (r: String)
    ensures
        r@ == endpoint(base_url@, "/translate"@),
{
    endpoint_url(base_url, "/translate")
}

/// The chat completions endpoint of an OpenAI-style API at `base_url`.
pub fn completions_url(base_url: &str) -> (r: String)
    ensures
        r@ == endpoint(base_url@, "/chat/completions"@),
{
    endpoint_url(base_url, "/chat/completions")
}

/// The instruction that asks a chat model to translate into `target_locale`.
pub fn system_prompt(target_locale: &str) -> (r: String)
    ensures
        r@ == "You are a translation engine. Translate the user's text into "@ + target_locale@
            + ". Return only the translated text without quotes or commentary."@,
{
    let mut r = String::from_str("You are a translation engine. Translate the user's text into ");
    r.append(target_locale);
    r.append(". Return only the translated text without quotes or commentary.");
    r
}

/// What `str::trim` yields for a text: it depends on the text alone.
pub uninterp spec fn trim_of(s: Seq<char>) -> Seq<char>;

/// Relies on `str::trim`: the text without leading and trailing white space;
/// the result depends on the characters alone and is never longer.
#[verifier::external_body]
pub(crate) fn trim(s: &str) -> (r: String)
    ensures
        r@ == trim_of(s@),
        r@.len() <= s@.len(),
{
    s.trim().to_string()
}

/// The translation in a chat model's reply, given the content of its first
/// choice: that content, trimmed, unless it is absent or blank.
pub fn translation_from_reply(first_content: Option<&str>) -> (r: Option<String>)
    ensures
        match first_content {
            Some(c) => if trim_of(c@).len() > 0 {
                r is Some && r->0@ == trim_of(c@)
            } else {
                r is None
            },
            None => r is None,
        },
{
    match first_content {
        Some(c) => {
            let t = trim(c);
            if t.as_str().unicode_len() > 0 {
                Some(t)
            } else {
                None
            }
        },
        None => None,
    }
}

} // verus!
