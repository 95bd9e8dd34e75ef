use vstd::prelude::*;
use crate::auth::id_text;
use crate::commons::ApiError;
use crate::pattern::{
    dash_run_source, image_markdown_source, non_word_source, regex_compiles, slugify, spec_slug,
    spec_summary, summarize, Pattern,
};
use crate::snowflake::{generate_snowflake, EPOCH_MS};
use crate::text::u64_to_decimal;

verus! {

/// A writing, as stored and as sent.
pub struct Writing {
    pub id: Option<String>,
    pub title: String,
    pub slug: Option<String>,
    pub hero: Option<String>,
    pub body: String,
    pub created: Option<String>,
    pub updated: Option<String>,
    pub deleted: Option<String>,
}

/// The chars of an optional string.
pub open spec fn opt_text(s: Option<String>) -> Option<Seq<char>> {
    match s {
        Some(t) => Some(t@),
        None => None,
    }
}

/// Whether `w` is `original` with its body replaced by its summary.
pub open spec fn is_summary_of(w: Writing, original: Writing) -> bool {
    &&& opt_text(w.id) == opt_text(original.id)
    &&& w.title@ == original.title@
    &&& opt_text(w.slug) == opt_text(original.slug)
    &&& opt_text(w.hero) == opt_text(original.hero)
    &&& w.body@ == spec_summary(original.body@)
    &&& opt_text(w.created) == opt_text(original.created)
    &&& opt_text(w.updated) == opt_text(original.updated)
    &&& opt_text(w.deleted) == opt_text(original.deleted)
}

fn clone_opt(s: &Option<String>) -> (r: Option<String>)
    ensures
        opt_text(r) == opt_text(*s),
{
    match s {
        Some(t) => Some(t.clone()),
        None => None,
    }
}

/// A writing for the list: the same writing with its body cut down to its
/// summary (images removed, at most 150 chars).
pub fn summarize_writing(image_markdown: &Pattern, w: &Writing) -> (r: Writing)
    requires
        image_markdown.source() == image_markdown_source(),
    ensures
        is_summary_of(r, *w),
{
    Writing {
        id: clone_opt(&w.id),
        title: w.title.clone(),
        slug: clone_opt(&w.slug),
        hero: clone_opt(&w.hero),
        body: summarize(image_markdown, w.body.as_str()),
        created: clone_opt(&w.created),
        updated: clone_opt(&w.updated),
        deleted: clone_opt(&w.deleted),
    }
}

/// The list of writings as sent: each stored writing, in order, with its
/// body cut down to its summary; `None` only where the regex crate refuses
/// the fixed image pattern.
pub fn get_writings(rows: &Vec<Writing>) -> (r: Option<Vec<Writing>>)
    ensures
        r is Some <==> regex_compiles(image_markdown_source()),
        r matches Some(list) ==> list@.len() == rows@.len() && forall|k: int|
            0 <= k < rows@.len() ==> #[trigger] is_summary_of(list@[k], rows@[k]),
{
    let image_markdown = match Pattern::image_markdown() {
        Some(p) => p,
        None => {
            return None;
        },
    };
    let mut list: Vec<Writing> = Vec::new();
    let mut k: usize = 0;
    while k < rows.len()
        invariant
            image_markdown.source() == image_markdown_source(),
            k <= rows@.len(),
            list@.len() == k,
            forall|x: int| 0 <= x < k ==> #[trigger] is_summary_of(list@[x], rows@[x]),
        decreases rows@.len() - k,
    {
        list.push(summarize_writing(&image_markdown, &rows[k]));
        k = k + 1;
    }
    Some(list)
}

/// The values that a new writing is stored with: a new snowflake id (in
/// decimal), the title, the slug of the title, the hero image (none when
/// absent) and the body.
pub struct WritingRow {
    pub id: String,
    pub title: String,
    pub slug: String,
    pub hero: Option<String>,
    pub body: String,
}

/// The row of a new writing made at `now_ms`; fails with
/// `ApiError::Internal` only where the regex crate refuses a slug pattern.
pub fn add_writings(body: &Writing, now_ms: u64, machine_name: Option<&str>) -> (r: Result<WritingRow, ApiError>)
    requires
        now_ms >= EPOCH_MS,
    ensures
        r is Ok <==> regex_compiles(non_word_source()) && regex_compiles(dash_run_source()),
        r matches Err(e) ==> e == ApiError::Internal,
        r matches Ok(row) ==> {
            &&& row.id@ == id_text(now_ms, machine_name)
            &&& row.title@ == body.title@
            &&& row.slug@ == spec_slug(body.title@)
            &&& opt_text(row.hero) == opt_text(body.hero)
            &&& row.body@ == body.body@
        },
{
    let id = generate_snowflake(now_ms, machine_name);
    let non_word = match Pattern::non_word() {
        Some(p) => p,
        None => {
            return Err(ApiError::Internal);
        },
    };
    let dash_runs = match Pattern::dash_runs() {
        Some(p) => p,
        None => {
            return Err(ApiError::Internal);
        },
    };
    let slug = slugify(&non_word, &dash_runs, body.title.as_str());
    Ok(
        WritingRow {
            id: u64_to_decimal(id),
            title: body.title.clone(),
            slug,
            hero: clone_opt(&body.hero),
            body: body.body.clone(),
        },
    )
}

/// The body of an update: the id of the writing, its new title and, when
/// it changes, its new body.
pub struct WritingEdit {
    pub id: Option<String>,
    pub title: String,
    pub body: Option<String>,
}

/// The values that an update stores: the new title, its slug and, when
/// given, the new body, for the writing with the given id.
pub struct WritingUpdate {
    pub id: String,
    pub title: String,
    pub slug: String,
    pub body: Option<String>,
}

/// The update of a writing: the slug follows the new title, and the body
/// changes only when a new one is given; `ApiError::Internal` only where the
/// regex crate refuses a slug pattern. The id is required.
pub fn update_writing(edit: &WritingEdit) -> (r: Result<WritingUpdate, ApiError>)
    requires
        edit.id is Some,
    ensures
        r is Ok <==> regex_compiles(non_word_source()) && regex_compiles(dash_run_source()),
        r matches Err(e) ==> e == ApiError::Internal,
        r matches Ok(u) ==> {
            &&& opt_text(edit.id) == Some(u.id@)
            &&& u.title@ == edit.title@
            &&& u.slug@ == spec_slug(edit.title@)
            &&& opt_text(u.body) == opt_text(edit.body)
        },
{
    let id = match &edit.id {
        Some(id) => id.clone(),
        None => String::new(),
    };
    let non_word = match Pattern::non_word() {
        Some(p) => p,
        None => {
            return Err(ApiError::Internal);
        },
    };
    let dash_runs = match Pattern::dash_runs() {
        Some(p) => p,
        None => {
            return Err(ApiError::Internal);
        },
    };
    let slug = slugify(&non_word, &dash_runs, edit.title.as_str());
    Ok(WritingUpdate { id, title: edit.title.clone(), slug, body: clone_opt(&edit.body) })
}

} // verus!
