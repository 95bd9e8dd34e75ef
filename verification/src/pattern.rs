use vstd::prelude::*;
use regex::Regex;
use crate::text::push_char;

verus! {

#[verifier::external_type_specification]
#[verifier::external_body]
pub struct ExRegex(Regex);

/// Whether the regex crate accepts `pattern` (`Regex::new` returns `Ok`).
pub uninterp spec fn regex_compiles(pattern: Seq<char>) -> bool;

/// What the regex crate's `Regex::replace_all` gives for the regex compiled
/// from `pattern`, the text and the replacement.
pub uninterp spec fn regex_replace_all(pattern: Seq<char>, text: Seq<char>, replacement: Seq<char>) -> Seq<char>;

/// A compiled regular expression, kept with the pattern it was compiled
/// from. Only `compile` makes one, so the two always belong together.
pub struct Pattern {
    regex: Regex,
    source: String,
}

/// The pattern of one non-word char: `\W`.
pub open spec fn non_word_source() -> Seq<char> {
    seq!['\\', 'W']
}

/// The pattern of a run of dashes: `-+`.
pub open spec fn dash_run_source() -> Seq<char> {
    seq!['-', '+']
}

/// The pattern of an image in Markdown followed by a space:
/// `!\[\w+\s\w+].+?(\.png|jpeg|jpg|gif|webp)\)\s`. The link part is matched
/// lazily, so that the text between two images stays.
pub open spec fn image_markdown_source() -> Seq<char> {
    seq![
        '!', '\\', '[', '\\', 'w', '+', '\\', 's', '\\', 'w', '+', ']', '.', '+', '?', '(', '\\', '.',
        'p', 'n', 'g', '|', 'j', 'p', 'e', 'g', '|', 'j', 'p', 'g', '|', 'g', 'i', 'f', '|', 'w',
        'e', 'b', 'p', ')', '\\', ')', '\\', 's',
    ]
}

impl Pattern {
    /// The pattern this regex was compiled from.
    pub closed spec fn source(&self) -> Seq<char> {
        self.source@
    }

    /// Compiles `source`.
    ///
    /// Trusted: the regex crate's `Regex::new`, which succeeds or fails as
    /// `regex_compiles` names it; the compiled regex is kept beside a copy of
    /// its source.
    #[verifier::external_body]
    fn compile(source: &str) -> (r: Option<Pattern>)
        ensures
            r is Some <==> regex_compiles(source@),
            r matches Some(p) ==> p.source() == source@,
    {
        match Regex::new(source) {
            Ok(regex) => Some(Pattern { regex, source: source.to_string() }),
            Err(_) => None,
        }
    }

    /// Replaces every match in `text` by `replacement`.
    ///
    /// Trusted: the regex crate's `Regex::replace_all` (leftmost-first,
    /// non-overlapping matches); its result is only named
    /// (`regex_replace_all`), a function of the pattern, the text and the
    /// replacement.
    #[verifier::external_body]
    fn replace_all(&self, text: &str, replacement: &str) -> (out: String)
        ensures
            out@ == regex_replace_all(self.source(), text@, replacement@),
    {
        self.regex.replace_all(text, replacement).into_owned()
    }

    /// The regex of one non-word char, `\W`.
    pub fn non_word() -> (r: Option<Pattern>)
        ensures
            r is Some <==> regex_compiles(non_word_source()),
            r matches Some(p) ==> p.source() == non_word_source(),
    {
        let source = "\\W";
        proof {
            reveal_strlit("\\W");
            assert(source@ =~= non_word_source());
        }
        Pattern::compile(source)
    }

    /// The regex of a run of dashes, `-+`.
    pub fn dash_runs() -> (r: Option<Pattern>)
        ensures
            r is Some <==> regex_compiles(dash_run_source()),
            r matches Some(p) ==> p.source() == dash_run_source(),
    {
        let source = "-+";
        proof {
            reveal_strlit("-+");
            assert(source@ =~= dash_run_source());
        }
        Pattern::compile(source)
    }

    /// The regex of a Markdown image followed by a space.
    pub fn image_markdown() -> (r: Option<Pattern>)
        ensures
            r is Some <==> regex_compiles(image_markdown_source()),
            r matches Some(p) ==> p.source() == image_markdown_source(),
    {
        let source = "!\\[\\w+\\s\\w+].+?(\\.png|jpeg|jpg|gif|webp)\\)\\s";
        proof {
            reveal_strlit("!\\[\\w+\\s\\w+].+?(\\.png|jpeg|jpg|gif|webp)\\)\\s");
            assert(source@ =~= image_markdown_source());
        }
        Pattern::compile(source)
    }
}

/// The lowercase form of a string, as std's `str::to_lowercase` makes it
/// (Unicode's lowercase mapping).
pub uninterp spec fn unicode_lowercase(s: Seq<char>) -> Seq<char>;

/// The lowercase form of `s`.
///
/// Trusted: std's `str::to_lowercase`, whose result depends on the string
/// alone; it is only named (`unicode_lowercase`).
#[verifier::external_body]
fn to_lowercase(s: &str) -> (r: String)
    ensures
        r@ == unicode_lowercase(s@),
{
    s.to_lowercase()
}

/// The slug of a title: every non-word char becomes `-`, then every run of
/// dashes becomes a single `-`, and the result is lowercased.
pub open spec fn spec_slug(title: Seq<char>) -> Seq<char> {
    unicode_lowercase(
        regex_replace_all(dash_run_source(), regex_replace_all(non_word_source(), title, seq!['-']), seq!['-']),
    )
}

/// The slug of `title`, with both regexes already compiled.
pub fn slugify(non_word: &Pattern, dash_runs: &Pattern, title: &str) -> (slug: String)
    requires
        non_word.source() == non_word_source(),
        dash_runs.source() == dash_run_source(),
    ensures
        slug@ == spec_slug(title@),
{
    let dash = "-";
    proof {
        reveal_strlit("-");
        assert(dash@ =~= seq!['-']);
    }
    let initial = non_word.replace_all(title, dash);
    let joined = dash_runs.replace_all(initial.as_str(), dash);
    to_lowercase(joined.as_str())
}

/// The slug of `title` (see `spec_slug`); `None` only where the regex crate
/// refuses one of the two fixed patterns.
pub fn generate_slug(title: &String) -> (slug: Option<String>)
    ensures
        slug is Some <==> regex_compiles(non_word_source()) && regex_compiles(dash_run_source()),
        slug matches Some(s) ==> s@ == spec_slug(title@),
{
    let non_word = match Pattern::non_word() {
        Some(p) => p,
        None => {
            return None;
        },
    };
    let dash_runs = match Pattern::dash_runs() {
        Some(p) => p,
        None => {
            return None;
        },
    };
    Some(slugify(&non_word, &dash_runs, title.as_str()))
}

/// How many chars of a writing's body its summary keeps.
pub const SUMMARY_CHARS: usize = 150;

/// The summary of a body: Markdown images (with the space after them)
/// removed, then the first `SUMMARY_CHARS` chars.
pub open spec fn spec_summary(body: Seq<char>) -> Seq<char> {
    let stripped = regex_replace_all(image_markdown_source(), body, seq![]);
    if stripped.len() <= SUMMARY_CHARS {
        stripped
    } else {
        stripped.take(SUMMARY_CHARS as int)
    }
}

/// The summary of `body`, with the image regex already compiled.
pub fn summarize(image_markdown: &Pattern, body: &str) -> (summary: String)
    requires
        image_markdown.source() == image_markdown_source(),
    ensures
        summary@ == spec_summary(body@),
        summary@.len() <= SUMMARY_CHARS,
{
    let empty = "";
    proof {
        reveal_strlit("");
        assert(empty@ =~= seq![]);
    }
    let sanitized = image_markdown.replace_all(body, empty);
    let n = sanitized.as_str().unicode_len();
    let mut summary = String::new();
    let mut i: usize = 0;
    while i < n && i < SUMMARY_CHARS
        invariant
            n == sanitized@.len(),
            i <= n,
            i <= SUMMARY_CHARS,
            summary@ == sanitized@.take(i as int),
        decreases n - i,
    {
        push_char(&mut summary, sanitized.as_str().get_char(i));
        i = i + 1;
        assert(summary@ =~= sanitized@.take(i as int));
    }
    if n <= SUMMARY_CHARS {
        assert(sanitized@.take(i as int) =~= sanitized@);
    }
    summary
}

/// A summary is taken from the whole body with its images removed: it is
/// the first 150 chars of the stripped body, all of it when that has at most
/// 150 chars, however long the body itself is.
pub proof fn lemma_summary_of_stripped_body(body: Seq<char>)
    ensures
        ({
            let stripped = regex_replace_all(image_markdown_source(), body, seq![]);
            &&& stripped.len() <= 150 ==> spec_summary(body) == stripped
            &&& stripped.len() > 150 ==> spec_summary(body).len() == 150
            &&& forall|i: int| 0 <= i < spec_summary(body).len() ==> #[trigger] spec_summary(body)[i] == stripped[i]
        }),
{
}

} // verus!
