//! Whether a project uses Tailwind CSS.
use vstd::prelude::*;

use crate::paths::{extension_is, has_extension};
use crate::text::{contains, strings_view, text_contains, text_eq};

verus! {

/// The names of Tailwind's configuration files.
pub open spec fn is_tailwind_config_name(n: Seq<char>) -> bool {
    n == "tailwind.config.js"@ || n == "tailwind.config.ts"@ || n == "tailwind.config.mjs"@ || n
        == "tailwind.config.cjs"@
}

/// The PostCSS configuration mentions Tailwind.
pub open spec fn postcss_uses_tailwind(content: Seq<char>) -> bool {
    contains(content, "tailwindcss"@)
}

/// A stylesheet uses Tailwind's directives.
pub open spec fn stylesheet_uses_tailwind(content: Seq<char>) -> bool {
    contains(content, "@tailwind"@) || contains(content, "@layer"@)
}

/// Whether `name` is the name of a Tailwind configuration file.
pub fn is_tailwind_config_file(name: &str) -> (r: bool)
    ensures
        r == is_tailwind_config_name(name@),
{
    text_eq(name, "tailwind.config.js") || text_eq(name, "tailwind.config.ts") || text_eq(
        name,
        "tailwind.config.mjs",
    ) || text_eq(name, "tailwind.config.cjs")
}

/// The name of the PostCSS configuration file that may load Tailwind.
pub fn postcss_config_name() -> (r: &'static str)
    ensures
        r@ == "postcss.config.js"@,
{
    "postcss.config.js"
}

/// Whether a PostCSS configuration mentions `tailwindcss`.
pub fn postcss_mentions_tailwind(content: &str) -> (r: bool)
    ensures
        r == postcss_uses_tailwind(content@),
{
    text_contains(content, "tailwindcss")
}

/// Whether `path` names a stylesheet (extension `css`).
pub fn is_stylesheet(path: &str) -> (r: bool)
    ensures
        r == has_extension(path@, "css"@),
{
    extension_is(path, "css")
}

/// Whether a stylesheet holds `@tailwind` or `@layer`.
pub fn stylesheet_mentions_tailwind(content: &str) -> (r: bool)
    ensures
        r == stylesheet_uses_tailwind(content@),
{
    text_contains(content, "@tailwind") || text_contains(content, "@layer")
}

/// A project uses Tailwind: one of Tailwind's configuration files is among
/// the names at its root, its PostCSS configuration mentions Tailwind, or
/// one of its stylesheets uses Tailwind's directives.
pub open spec fn uses_tailwind(
    root_names: Seq<Seq<char>>,
    postcss: Option<Seq<char>>,
    stylesheets: Seq<Seq<char>>,
) -> bool {
    ||| exists|i: int| 0 <= i < root_names.len() && is_tailwind_config_name(#[trigger] root_names[i])
    ||| (postcss matches Some(c) && postcss_uses_tailwind(c))
    ||| exists|i: int| 0 <= i < stylesheets.len() && stylesheet_uses_tailwind(#[trigger] stylesheets[i])
}

/// A project is found to use Tailwind exactly when its root holds a file
/// named `tailwind.config.js`, `tailwind.config.ts`, `tailwind.config.mjs`
/// or `tailwind.config.cjs`, its PostCSS configuration holds the text
/// `tailwindcss`, or one of its stylesheets holds `@tailwind` or `@layer`.
pub proof fn law_tailwind_signals(
    root_names: Seq<Seq<char>>,
    postcss: Option<Seq<char>>,
    stylesheets: Seq<Seq<char>>,
)
    ensures
        uses_tailwind(root_names, postcss, stylesheets) <==> {
            ||| exists|i: int|
                0 <= i < root_names.len() && (#[trigger] root_names[i] == "tailwind.config.js"@
                    || root_names[i] == "tailwind.config.ts"@ || root_names[i]
                    == "tailwind.config.mjs"@ || root_names[i] == "tailwind.config.cjs"@)
            ||| (postcss matches Some(c) && contains(c, "tailwindcss"@))
            ||| exists|i: int|
                0 <= i < stylesheets.len() && (contains(#[trigger] stylesheets[i], "@tailwind"@)
                    || contains(stylesheets[i], "@layer"@))
        },
{
}

/// Whether a project uses Tailwind: one of Tailwind's configuration files
/// is among the names at its root, its PostCSS configuration (when there is
/// a readable one) mentions `tailwindcss`, or one of the readable
/// stylesheets at its root holds `@tailwind` or `@layer`.
pub fn tailwind_detected(root_names: &Vec<String>, postcss: Option<&str>, stylesheets: &Vec<String>) -> (r: bool)
    ensures
        r == ((exists|i: int| 0 <= i < root_names@.len() && is_tailwind_config_name(#[trigger] root_names@[i]@))
            || (postcss matches Some(c) && postcss_uses_tailwind(c@))
            || (exists|i: int| 0 <= i < stylesheets@.len() && stylesheet_uses_tailwind(#[trigger] stylesheets@[i]@))),
        r == uses_tailwind(
            strings_view(root_names@),
            match postcss {
                Some(c) => Some(c@),
                None => None,
            },
            strings_view(stylesheets@),
        ),
{
    let mut i: usize = 0;
    while i < root_names.len()
        invariant
            i <= root_names.len(),
            forall|k: int| 0 <= k < i ==> !is_tailwind_config_name(#[trigger] root_names@[k]@),
        decreases root_names.len() - i,
    {
        if is_tailwind_config_file(root_names[i].as_str()) {
            assert(strings_view(root_names@)[i as int] == root_names@[i as int]@);
            return true;
        }
        i = i + 1;
    }
    match postcss {
        Some(c) => {
            if postcss_mentions_tailwind(c) {
                return true;
            }
        },
        None => {},
    }
    let mut j: usize = 0;
    while j < stylesheets.len()
        invariant
            j <= stylesheets.len(),
            forall|k: int| 0 <= k < j ==> !stylesheet_uses_tailwind(#[trigger] stylesheets@[k]@),
        decreases stylesheets.len() - j,
    {
        if stylesheet_mentions_tailwind(stylesheets[j].as_str()) {
            assert(strings_view(stylesheets@)[j as int] == stylesheets@[j as int]@);
            return true;
        }
        j = j + 1;
    }
    false
}

} // verus!
