//! Rendering a prompt template (minijinja syntax: `{{ var }}`, filters such
//! as `{{ var | upper }}`) once per row of batch data.
use vstd::prelude::*;
use super::types::{BatchRow, RenderError, RenderResult, rows_view, rows_wf};
use crate::text::concat;
use std::collections::HashMap;

verus! {

/// The message of the syntax error minijinja reports for `template`, if any.
pub uninterp spec fn template_syntax_error(template: Seq<char>) -> Option<Seq<char>>;

/// What minijinja renders for `template` with the variables of `row`
/// (undefined variables are errors): the text, or the error message.
pub uninterp spec fn template_output(template: Seq<char>, row: Map<Seq<char>, Seq<char>>) -> Result<
    Seq<char>,
    Seq<char>,
>;

/// Compiles `template` with minijinja (`Environment::add_template`) and
/// returns the error message if it does not compile, as `template_syntax_error`
/// names it.
#[verifier::external_body]
fn check_template(template: &str) -> (r: Option<String>)
    ensures
        match r {
            Some(m) => template_syntax_error(template@) == Some(m@),
            None => template_syntax_error(template@) is None,
        },
{
    let mut env = minijinja::Environment::new();
    match env.add_template("prompt", template) {
        Ok(_) => None,
        Err(e) => Some(e.to_string()),
    }
}

/// Renders `template` with minijinja (`Template::render`, undefined
/// variables strict) over the row's variables, as `template_output` names it.
/// The row's keys are distinct, so the context holds each of its entries.
#[verifier::external_body]
fn render_with_row(template: &str, row: &BatchRow) -> (r: Result<String, String>)
    requires
        row.wf(),
    ensures
        match r {
            Ok(s) => template_output(template@, row@) == Ok::<Seq<char>, Seq<char>>(s@),
            Err(m) => template_output(template@, row@) == Err::<Seq<char>, Seq<char>>(m@),
        },
{
    let mut env = minijinja::Environment::new();
    env.set_undefined_behavior(minijinja::UndefinedBehavior::Strict);
    let context: HashMap<&str, &str> = row.entries.iter().map(|(k, v)| (k.as_str(), v.as_str())).collect();
    let rendered = match env.add_template("prompt", template) {
        Ok(()) => match env.get_template("prompt") {
            Ok(t) => t.render(&context),
            Err(e) => Err(e),
        },
        Err(e) => Err(e),
    };
    match rendered {
        Ok(text) => Ok(text),
        Err(e) => Err(e.to_string()),
    }
}

/// The rendered prompt for one row (empty when rendering failed).
pub open spec fn rendered_text(out: Result<Seq<char>, Seq<char>>) -> Seq<char> {
    match out {
        Ok(s) => s,
        Err(_) => Seq::empty(),
    }
}

/// What rendering `template` over `rows` gives (see `render_template`).
pub open spec fn render_outcome(template: Seq<char>, rows: Seq<BatchRow>, r: RenderResult) -> bool {
    &&& r.rendered@.len() == rows.len()
    &&& match template_syntax_error(template) {
        Some(m) => {
            &&& r.errors@.len() == rows.len()
            &&& forall|i: int|
                0 <= i < rows.len() ==> (#[trigger] r.rendered@[i])@.len() == 0 && r.errors@[i].row
                    == i && r.errors@[i].error@ == "Template syntax error: "@ + m
        },
        None => {
            &&& forall|i: int|
                0 <= i < rows.len() ==> (#[trigger] r.rendered@[i])@ == rendered_text(
                    template_output(template, rows[i]@),
                )
            &&& forall|k: int|
                0 <= k < r.errors@.len() ==> {
                    let e = #[trigger] r.errors@[k];
                    &&& e.row < rows.len()
                    &&& template_output(template, rows[e.row as int]@) == Err::<
                        Seq<char>,
                        Seq<char>,
                    >(e.error@)
                }
            &&& forall|k: int, l: int|
                0 <= k < l < r.errors@.len() ==> (#[trigger] r.errors@[k]).row < (#[trigger] r.errors@[l]).row
            &&& forall|i: int|
                0 <= i < rows.len() && template_output(template, rows[i]@) is Err ==> exists|
                    k: int,
                |
                    0 <= k < r.errors@.len() && (#[trigger] r.errors@[k]).row == i
        },
    }
}

/// Renders the template for each row. A template that does not compile
/// fails every row with "Template syntax error: " and the compiler's
/// message; otherwise each row gets its rendered text, or an empty text
/// and an error entry with the renderer's message.
pub fn render_template(template: &str, rows: Vec<BatchRow>) -> (r: RenderResult)
    requires
        rows_wf(rows@),
    ensures
        render_outcome(template@, rows@, r),
{
    let mut rendered: Vec<String> = Vec::new();
    let mut errors: Vec<RenderError> = Vec::new();
    match check_template(template) {
        Some(m) => {
            let message = concat("Template syntax error: ", m.as_str());
            let mut i: usize = 0;
            while i < rows.len()
                invariant
                    i <= rows@.len(),
                    rendered@.len() == i,
                    errors@.len() == i,
                    message@ == "Template syntax error: "@ + m@,
                    forall|j: int|
                        0 <= j < i ==> (#[trigger] rendered@[j])@.len() == 0 && errors@[j].row == j
                            && errors@[j].error@ == message@,
                decreases rows@.len() - i,
            {
                rendered.push(String::new());
                errors.push(RenderError { row: i, error: message.clone() });
                i = i + 1;
            }
        },
        None => {
            let mut i: usize = 0;
            while i < rows.len()
                invariant
                    i <= rows@.len(),
                    rows_wf(rows@),
                    rendered@.len() == i,
                    forall|j: int|
                        0 <= j < i ==> (#[trigger] rendered@[j])@ == rendered_text(
                            template_output(template@, rows@[j]@),
                        ),
                    forall|k: int|
                        0 <= k < errors@.len() ==> {
                            let e = #[trigger] errors@[k];
                            &&& e.row < i
                            &&& template_output(template@, rows@[e.row as int]@) == Err::<
                                Seq<char>,
                                Seq<char>,
                            >(e.error@)
                        },
                    forall|k: int, l: int|
                        0 <= k < l < errors@.len() ==> (#[trigger] errors@[k]).row < (
                        #[trigger] errors@[l]).row,
                    forall|j: int|
                        0 <= j < i && template_output(template@, rows@[j]@) is Err ==> exists|k: int|
                            0 <= k < errors@.len() && (#[trigger] errors@[k]).row == j,
                decreases rows@.len() - i,
            {
                match render_with_row(template, &rows[i]) {
                    Ok(s) => {
                        rendered.push(s);
                    },
                    Err(m) => {
                        rendered.push(String::new());
                        let ghost before = errors@;
                        errors.push(RenderError { row: i, error: m });
                        proof {
                            assert(errors@[before.len() as int].row == i);
                            assert forall|j: int|
                                0 <= j < i + 1 && template_output(template@, rows@[j]@) is Err implies exists|
                                    k: int,
                                |
                                    0 <= k < errors@.len() && (#[trigger] errors@[k]).row == j by {
                                if j < i {
                                    let k = choose|k: int|
                                        0 <= k < before.len() && (#[trigger] before[k]).row == j;
                                    assert(errors@[k] == before[k]);
                                } else {
                                    assert(errors@[before.len() as int].row == j);
                                }
                            }
                        }
                    },
                }
                i = i + 1;
            }
        },
    }
    RenderResult { rendered, errors }
}

} // verus!
