//! Rendering a request template against a context.

use vstd::prelude::*;
use crate::bindings::{
    empty_object_text, is_object_text, json_empty_object, json_is_object, json_set_text, json_text,
    json_with_text, render_template, rendered,
};
use crate::error::ErrorKind;
use crate::text::{chars_of, first_at, lemma_first_at_is, pairs_view};

verus! {

/// The document `doc` after each override has been set in turn, so that a
/// later one replaces an earlier one of the same key.
pub open spec fn with_overrides(doc: Seq<char>, overrides: Seq<(Seq<char>, Seq<char>)>) -> Seq<
    char,
>
    decreases overrides.len(),
{
    if overrides.len() == 0 {
        doc
    } else {
        json_with_text(
            with_overrides(doc, overrides.drop_last()),
            overrides.last().0,
            overrides.last().1,
        )
    }
}

/// The object that overrides are set in: the environment's document where
/// that is an object, and the empty object where it is not, or where there
/// is no environment.
pub open spec fn override_base(env: Option<Seq<char>>) -> Seq<char> {
    match env {
        Some(doc) => if is_object_text(doc) {
            doc
        } else {
            empty_object_text()
        },
        None => empty_object_text(),
    }
}

/// The document that a template is rendered against. Without overrides it
/// is the environment's document, and there is none where there is no
/// environment. With overrides it is an object that holds them, on top of
/// what the environment holds.
pub open spec fn context_text(env: Option<Seq<char>>, overrides: Seq<(Seq<char>, Seq<char>)>)
    -> Option<Seq<char>> {
    if overrides.len() == 0 {
        env
    } else {
        Some(with_overrides(override_base(env), overrides))
    }
}

/// White space inside a tag of a template.
pub open spec fn is_tag_space(c: char) -> bool {
    c == ' ' || c == '\t' || c == '\n' || c == '\r'
}

/// Index of the first character at or after `from` that is no white space
/// of a tag, or `template.len()`.
pub open spec fn tag_space_end(template: Seq<char>, from: int) -> int {
    first_at(template, from, |c: char| !is_tag_space(c))
}

/// Where the sign stands that says of what kind the tag is that opens at
/// `at`: behind the two braces, behind white space, and behind one `~` with
/// white space where there is one.
pub open spec fn tag_sign(template: Seq<char>, at: int) -> int {
    let a = tag_space_end(template, at + 2);
    if a < template.len() && template[a] == '~' {
        tag_space_end(template, a + 1)
    } else {
        a
    }
}

/// Whether a partial tag opens at `at`: two braces whose sign is `>`, or is
/// `#` with `>` as the next sign. Such a tag includes another template, or
/// a part of this one.
pub open spec fn opens_partial(template: Seq<char>, at: int) -> bool {
    &&& 0 <= at
    &&& at + 1 < template.len()
    &&& template[at] == '{'
    &&& template[at + 1] == '{'
    &&& {
        let sign = tag_sign(template, at);
        &&& sign < template.len()
        &&& {
            ||| template[sign] == '>'
            ||| {
                &&& template[sign] == '#'
                &&& tag_space_end(template, sign + 1) < template.len()
                &&& template[tag_space_end(template, sign + 1)] == '>'
            }
        }
    }
}

/// Whether a template holds the opening of a partial tag, wherever it
/// stands: in a comment or in a raw block too.
pub open spec fn has_partial(template: Seq<char>) -> bool {
    exists|at: int| opens_partial(template, at)
}

/// What rendering gives: the template itself where there is no context. A
/// template that holds a partial tag is not rendered: placeholders are all
/// that a request file may hold, and a template that includes itself would
/// never be done.
pub open spec fn render_result(template: Seq<char>, context: Option<Seq<char>>) -> Result<
    Seq<char>,
    ErrorKind,
> {
    match context {
        None => Ok(template),
        Some(doc) => if has_partial(template) {
            Err(ErrorKind::TemplateError)
        } else {
            match rendered(template, doc) {
                Some(text) => Ok(text),
                None => Err(ErrorKind::TemplateError),
            }
        },
    }
}

/// The document of a value that may be absent.
pub open spec fn option_text(value: Option<serde_json::Value>) -> Option<Seq<char>> {
    match value {
        Some(v) => Some(json_text(v)),
        None => None,
    }
}

/// Builds the context for rendering from the environment's value and the
/// overrides.
pub fn context(env: Option<serde_json::Value>, overrides: &Vec<(String, String)>) -> (r: Option<
    serde_json::Value,
>)
    ensures
        option_text(r) == context_text(option_text(env), pairs_view(overrides@)),
{
    if overrides.len() == 0 {
        return env;
    }
    let ghost all = pairs_view(overrides@);
    let ghost base = override_base(option_text(env));
    let mut value = match env {
        Some(v) => if json_is_object(&v) {
            v
        } else {
            json_empty_object()
        },
        None => json_empty_object(),
    };
    let mut i: usize = 0;
    assert(all.take(0) =~= Seq::empty());
    while i < overrides.len()
        invariant
            i <= overrides@.len(),
            all == pairs_view(overrides@),
            is_object_text(json_text(value)),
            json_text(value) == with_overrides(base, all.take(i as int)),
        decreases overrides@.len() - i,
    {
        proof {
            let next = all.take(i + 1);
            assert(next.drop_last() =~= all.take(i as int));
            assert(next.last() == (overrides@[i as int].0@, overrides@[i as int].1@));
        }
        json_set_text(&mut value, overrides[i].0.as_str(), overrides[i].1.as_str());
        i += 1;
    }
    assert(all.take(overrides@.len() as int) =~= all);
    Some(value)
}

/// Finds the end of the white space of a tag.
fn skip_tag_space(template: &[char], from: usize) -> (at: usize)
    requires
        from <= template@.len(),
    ensures
        at == tag_space_end(template@, from as int),
        from <= at <= template@.len(),
{
    let mut at: usize = from;
    while at < template.len() && (template[at] == ' ' || template[at] == '\t' || template[at]
        == '\n' || template[at] == '\r')
        invariant
            from <= at <= template@.len(),
            forall|i: int| from <= i < at ==> is_tag_space(template@[i]),
        decreases template@.len() - at,
    {
        at += 1;
    }
    proof {
        lemma_first_at_is(template@, from as int, |c: char| !is_tag_space(c), at as int);
    }
    at
}

/// Whether a partial tag opens at `at`.
fn partial_at(template: &[char], at: usize) -> (r: bool)
    requires
        at < template@.len(),
    ensures
        r == opens_partial(template@, at as int),
{
    let n = template.len();
    if n - at < 2 || template[at] != '{' || template[at + 1] != '{' {
        return false;
    }
    let a = skip_tag_space(template, at + 2);
    let sign = if a < n && template[a] == '~' {
        skip_tag_space(template, a + 1)
    } else {
        a
    };
    if sign >= n {
        return false;
    }
    if template[sign] == '>' {
        return true;
    }
    if template[sign] != '#' {
        return false;
    }
    let next = skip_tag_space(template, sign + 1);
    next < n && template[next] == '>'
}

/// Whether a template holds the opening of a partial tag.
pub fn holds_partial(template: &str) -> (r: bool)
    ensures
        r == has_partial(template@),
{
    let chars = chars_of(template);
    let mut at: usize = 0;
    while at < chars.len()
        invariant
            at <= chars@.len(),
            chars@ == template@,
            forall|i: int| 0 <= i < at ==> !opens_partial(chars@, i),
        decreases chars@.len() - at,
    {
        if partial_at(chars.as_slice(), at) {
            return true;
        }
        at += 1;
    }
    false
}

/// Renders a template against a context: each placeholder `{{name}}` is
/// replaced by what the context holds under `name`, written as it is. A
/// template that holds a partial tag is refused.
pub fn render(template: &str, context: &serde_json::Value) -> (r: Result<String, ErrorKind>)
    ensures
        match r {
            Ok(text) => render_result(template@, Some(json_text(*context))) == Ok::<
                Seq<char>,
                ErrorKind,
            >(text@),
            Err(e) => render_result(template@, Some(json_text(*context))) == Err::<
                Seq<char>,
                ErrorKind,
            >(e),
        },
{
    if holds_partial(template) {
        return Err(ErrorKind::TemplateError);
    }
    match render_template(template, context) {
        Ok(text) => Ok(text),
        Err(_) => Err(ErrorKind::TemplateError),
    }
}

/// Rendering is a function of the template and the context: the same
/// template and the same context give the same result, whenever and however
/// often they are rendered.
pub proof fn lemma_render_is_a_function(
    template: Seq<char>,
    context: Option<Seq<char>>,
    again: Seq<char>,
    again_context: Option<Seq<char>>,
)
    requires
        template == again,
        context == again_context,
    ensures
        render_result(template, context) == render_result(again, again_context),
{
}

/// Without overrides the context is the environment's document, unchanged.
pub proof fn lemma_context_without_overrides(env: Option<Seq<char>>)
    ensures
        context_text(env, Seq::empty()) == env,
{
}

} // verus!
