//! The page with the form, drawn from a template.

use crate::error::{AppError, Failure};
use crate::issue::Issued;
use std::collections::HashMap;
use vstd::prelude::*;
use vstd::string::StringExecFns;

verus! {

/// The template of the page. The fields show what was given, and the
/// heading below the form shows the link that was issued.
pub const INDEX: &'static str = r#"
<!DOCTYPE html>
<html>

<body>
    <div style="text-align: center;">
        <h1>pixel-tracker</h1>
        <form>
            <label for="name">Tracking pixel name:</label><br>
            <input type="text" id="name" name="name" value="{{name}}" {{name_extra}}><br><br>

            <label for="webhook">Discord webhook URL:</label><br>
            <input type="text" id="webhook" name="webhook" value="{{webhook}}" {{webhook_extra}}><br><br>

            <input type="submit" value="Submit">
        </form>

        <h2><tt>{{result}}</tt></h2>
    </div>
</body>

</html>
"#;

/// What comes of rendering `template` with the variables `vars`, each a
/// name and a value, where a later one replaces an earlier one of its name
/// and a variable that is not given renders as nothing; `None` where the
/// template cannot be rendered.
pub uninterp spec fn handlebars_rendered(
    template: Seq<char>,
    vars: Seq<(Seq<char>, Seq<char>)>,
) -> Option<Seq<char>>;

/// The variables' names and values.
pub open spec fn vars_view(vars: Seq<(String, String)>) -> Seq<(Seq<char>, Seq<char>)> {
    Seq::new(vars.len(), |i: int| (vars[i].0@, vars[i].1@))
}

/// `handlebars::Handlebars::render_template`, on a fresh registry that is
/// not strict, with the variables as a map from name to value. The contract
/// names the result, which depends on the template and the variables alone.
/// Only the page's own template is admitted: on a template that defines a
/// partial which includes itself, the outside function does not return.
#[verifier::external_body]
fn render_template(template: &str, vars: &Vec<(String, String)>) -> (out: Option<String>)
    requires
        template@ == INDEX@,
    ensures
        match out {
            Some(page) => handlebars_rendered(template@, vars_view(vars@)) == Some(page@),
            None => handlebars_rendered(template@, vars_view(vars@)) is None,
        },
{
    let mut registry = handlebars::Handlebars::new();
    registry.set_strict_mode(false);
    let vars: HashMap<&str, &str> =
        vars.iter().map(|pair| (pair.0.as_str(), pair.1.as_str())).collect();
    registry.render_template(template, &vars).ok()
}

/// The variables of the page: none where no link was issued, else the two
/// fields and the link.
pub open spec fn vars_of(issued: Option<Issued>) -> Seq<(Seq<char>, Seq<char>)> {
    match issued {
        None => Seq::empty(),
        Some(issued) => seq![
            ("name"@, issued.name@),
            ("webhook"@, issued.webhook@),
            ("result"@, issued.result@),
        ],
    }
}

/// Collects the variables of the page.
pub fn page_vars(issued: &Option<Issued>) -> (vars: Vec<(String, String)>)
    ensures
        vars_view(vars@) == vars_of(*issued),
{
    let mut vars: Vec<(String, String)> = Vec::new();
    match issued {
        None => {},
        Some(issued) => {
            vars.push((String::from_str("name"), issued.name.clone()));
            vars.push((String::from_str("webhook"), issued.webhook.clone()));
            vars.push((String::from_str("result"), issued.result.clone()));
        },
    }
    assert(vars_view(vars@) =~= vars_of(*issued));
    vars
}

/// What is answered once rendering is over: the page, or the error.
pub fn page_from_rendered(rendered: Option<String>) -> (out: Result<String, AppError>)
    ensures
        match rendered {
            Some(page) => out matches Ok(text) && text@ == page@,
            None => out == Err::<String, AppError>(AppError(Failure::Render)),
        },
{
    match rendered {
        Some(page) => Ok(page),
        None => Err(AppError(Failure::Render)),
    }
}

/// Draws the page: the form, filled in with what was issued, if anything
/// was.
pub fn render_page(issued: &Option<Issued>) -> (out: Result<String, AppError>)
    ensures
        match handlebars_rendered(INDEX@, vars_of(*issued)) {
            Some(page) => out matches Ok(text) && text@ == page,
            None => out == Err::<String, AppError>(AppError(Failure::Render)),
        },
{
    let vars = page_vars(issued);
    page_from_rendered(render_template(INDEX, &vars))
}

} // verus!
