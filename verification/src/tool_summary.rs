//! Short descriptions of tool invocations, read from the invocation's input.

use crate::text::{same_text, truncate_with_ellipsis, truncated};
use vstd::prelude::*;
use vstd::string::StringExecFns;

verus! {

/// How many characters of a shell command a summary shows.
pub const COMMAND_PREVIEW_CHARS: usize = 60;

/// How the summary of a tool is made from its input.
pub enum Recipe {
    /// The summary is the named field.
    Field(&'static str),
    /// The summary is the named field, shortened to a number of characters.
    Shortened(&'static str, usize),
    /// The summary is the first named field, `" @ "` and the second.
    Located(&'static str, &'static str),
    /// The summary is a fixed text.
    Fixed(&'static str),
}

/// What a recipe is in contracts.
pub ghost enum RecipeView {
    Field(Seq<char>),
    Shortened(Seq<char>, nat),
    Located(Seq<char>, Seq<char>),
    Fixed(Seq<char>),
}

impl View for Recipe {
    type V = RecipeView;

    open spec fn view(&self) -> RecipeView {
        match *self {
            Recipe::Field(key) => RecipeView::Field(key@),
            Recipe::Shortened(key, max) => RecipeView::Shortened(key@, max as nat),
            Recipe::Located(first, second) => RecipeView::Located(first@, second@),
            Recipe::Fixed(text) => RecipeView::Fixed(text@),
        }
    }
}

/// The table of recognized tools: the recipe of each, and nothing for any
/// other name.
pub open spec fn recipe_of(name: Seq<char>) -> Option<RecipeView> {
    if name == "Read"@ || name == "Edit"@ || name == "Write"@ {
        Some(RecipeView::Field("file_path"@))
    } else if name == "Bash"@ {
        Some(RecipeView::Shortened("command"@, COMMAND_PREVIEW_CHARS as nat))
    } else if name == "Grep"@ || name == "Glob"@ {
        Some(RecipeView::Field("pattern"@))
    } else if name == "Task"@ {
        Some(RecipeView::Field("description"@))
    } else if name == "WebFetch"@ {
        Some(RecipeView::Field("url"@))
    } else if name == "WebSearch"@ {
        Some(RecipeView::Field("query"@))
    } else if name == "LSP"@ {
        Some(RecipeView::Located("operation"@, "filePath"@))
    } else if name == "NotebookEdit"@ {
        Some(RecipeView::Field("notebook_path"@))
    } else if name == "TodoWrite"@ {
        Some(RecipeView::Fixed("updating todo list"@))
    } else {
        None
    }
}

/// Whether a tool name is in the table.
pub open spec fn recognized(name: Seq<char>) -> bool {
    recipe_of(name) is Some
}

/// Whether a recipe reads the field `key`.
pub open spec fn reads_field(recipe: RecipeView, key: Seq<char>) -> bool {
    match recipe {
        RecipeView::Field(k) => key == k,
        RecipeView::Shortened(k, _) => key == k,
        RecipeView::Located(first, second) => key == first || key == second,
        RecipeView::Fixed(_) => false,
    }
}

/// The string field `key` of an input, if it has one.
pub open spec fn field_of(fields: Map<Seq<char>, Seq<char>>, key: Seq<char>) -> Option<
    Seq<char>,
> {
    if fields.contains_key(key) {
        Some(fields[key])
    } else {
        None
    }
}

/// The separator between an operation and the file it works on.
pub open spec fn location_mark() -> Seq<char> {
    seq![' ', '@', ' ']
}

/// What a recipe makes of the fields it reads: `first` is the field of a
/// one-field recipe or the first of two, `second` the second of two.
pub open spec fn apply_recipe(
    recipe: RecipeView,
    first: Option<Seq<char>>,
    second: Option<Seq<char>>,
) -> Option<Seq<char>> {
    match recipe {
        RecipeView::Field(_) => first,
        RecipeView::Shortened(_, max) => match first {
            Some(text) => Some(truncated(text, max)),
            None => None,
        },
        RecipeView::Located(_, _) => match (first, second) {
            (Some(operation), Some(file)) => Some(operation + location_mark() + file),
            _ => None,
        },
        RecipeView::Fixed(text) => Some(text),
    }
}

/// The first field that a recipe reads, if it reads any.
pub open spec fn first_key(recipe: RecipeView) -> Option<Seq<char>> {
    match recipe {
        RecipeView::Field(k) => Some(k),
        RecipeView::Shortened(k, _) => Some(k),
        RecipeView::Located(k, _) => Some(k),
        RecipeView::Fixed(_) => None,
    }
}

/// The second field that a recipe reads, if it reads two.
pub open spec fn second_key(recipe: RecipeView) -> Option<Seq<char>> {
    match recipe {
        RecipeView::Located(_, k) => Some(k),
        _ => None,
    }
}

/// The field of an input under an optional key.
pub open spec fn lookup(fields: Map<Seq<char>, Seq<char>>, key: Option<Seq<char>>) -> Option<
    Seq<char>,
> {
    match key {
        Some(k) => field_of(fields, k),
        None => None,
    }
}

/// The summary of a tool invocation, given the string fields of its input:
/// nothing for an unrecognized tool, otherwise what the tool's recipe makes
/// of the fields it reads.
pub open spec fn summary_of(name: Seq<char>, fields: Map<Seq<char>, Seq<char>>) -> Option<
    Seq<char>,
> {
    match recipe_of(name) {
        Some(recipe) => apply_recipe(
            recipe,
            lookup(fields, first_key(recipe)),
            lookup(fields, second_key(recipe)),
        ),
        None => None,
    }
}

/// Looks a tool name up in the table of recognized tools.
pub fn recipe_for(name: &str) -> (recipe: Option<Recipe>)
    ensures
        match recipe {
            Some(r) => recipe_of(name@) == Some(r@),
            None => recipe_of(name@) is None,
        },
{
    let recipe = if same_text(name, "Read") || same_text(name, "Edit") || same_text(name, "Write") {
        Some(Recipe::Field("file_path"))
    } else if same_text(name, "Bash") {
        Some(Recipe::Shortened("command", COMMAND_PREVIEW_CHARS))
    } else if same_text(name, "Grep") || same_text(name, "Glob") {
        Some(Recipe::Field("pattern"))
    } else if same_text(name, "Task") {
        Some(Recipe::Field("description"))
    } else if same_text(name, "WebFetch") {
        Some(Recipe::Field("url"))
    } else if same_text(name, "WebSearch") {
        Some(Recipe::Field("query"))
    } else if same_text(name, "LSP") {
        Some(Recipe::Located("operation", "filePath"))
    } else if same_text(name, "NotebookEdit") {
        Some(Recipe::Field("notebook_path"))
    } else if same_text(name, "TodoWrite") {
        Some(Recipe::Fixed("updating todo list"))
    } else {
        None
    };
    recipe
}

/// The view of an optional text.
pub open spec fn text_view(text: Option<String>) -> Option<Seq<char>> {
    match text {
        Some(s) => Some(s@),
        None => None,
    }
}

/// Makes the summary of a recipe from the fields that were read for it:
/// `first` is the field of a one-field recipe or the first of two, `second`
/// the second of two. A field that is missing leaves the summary out.
pub fn compose_summary(recipe: &Recipe, first: Option<String>, second: Option<String>) -> (summary:
    Option<String>)
    ensures
        text_view(summary) == apply_recipe(recipe@, text_view(first), text_view(second)),
{
    match recipe {
        Recipe::Field(_) => first,
        Recipe::Shortened(_, max) => match first {
            Some(text) => Some(truncate_with_ellipsis(text.as_str(), *max)),
            None => None,
        },
        Recipe::Located(_, _) => match first {
            Some(operation) => match second {
                Some(file) => {
                    proof {
                        reveal_strlit(" @ ");
                        assert(" @ "@ =~= location_mark());
                    }
                    Some(operation.concat(" @ ").concat(file.as_str()))
                },
                None => None,
            },
            None => None,
        },
        Recipe::Fixed(text) => Some(String::from_str(text)),
    }
}

/// The members of a JSON object whose value is a string, each under its key;
/// no member at all for a value that is no object.
pub uninterp spec fn string_members(value: serde_json::Value) -> Map<Seq<char>, Seq<char>>;

/// Calls `serde_json::Value::get` with the key and `Value::as_str` on the
/// member found. The contract says that a text comes back exactly when the
/// value is an object with a string member under the key, and that it is
/// that member's text.
#[verifier::external_body]
fn string_member(input: &serde_json::Value, key: &str) -> (found: Option<String>)
    ensures
        text_view(found) == field_of(string_members(*input), key@),
{
    input.get(key).and_then(serde_json::Value::as_str).map(str::to_owned)
}

/// Extracts the most relevant field of a tool's input for display: a file
/// path, a command, a pattern and so on, by the tool's name. Nothing comes
/// back for a tool that is not recognized, nor where a field that the tool's
/// recipe reads is missing or is no string.
pub fn format_tool_summary(name: &str, input: &serde_json::Value) -> (summary: Option<String>)
    ensures
        text_view(summary) == summary_of(name@, string_members(*input)),
{
    match recipe_for(name) {
        None => None,
        Some(recipe) => {
            let first = match recipe {
                Recipe::Field(key) => string_member(input, key),
                Recipe::Shortened(key, _) => string_member(input, key),
                Recipe::Located(key, _) => string_member(input, key),
                Recipe::Fixed(_) => None,
            };
            let second = match recipe {
                Recipe::Located(_, key) => string_member(input, key),
                _ => None,
            };
            compose_summary(&recipe, first, second)
        },
    }
}

/// A tool that is not in the table has no summary, whatever its input holds.
pub proof fn lemma_unrecognized_tool_has_no_summary(
    name: Seq<char>,
    fields: Map<Seq<char>, Seq<char>>,
)
    requires
        !recognized(name),
    ensures
        summary_of(name, fields) is None,
{
}

/// A recognized tool whose input lacks a field that its recipe reads has no
/// summary.
pub proof fn lemma_missing_field_has_no_summary(
    name: Seq<char>,
    fields: Map<Seq<char>, Seq<char>>,
    key: Seq<char>,
)
    requires
        recipe_of(name) matches Some(recipe) && reads_field(recipe, key),
        !fields.contains_key(key),
    ensures
        summary_of(name, fields) is None,
{
}

/// A recognized tool has a summary exactly when its input holds every field
/// that its recipe reads.
pub proof fn lemma_summary_present_iff_fields_present(
    name: Seq<char>,
    fields: Map<Seq<char>, Seq<char>>,
)
    requires
        recognized(name),
    ensures
        summary_of(name, fields) is Some <==> (forall|key: Seq<char>|
            reads_field(recipe_of(name)->Some_0, key) ==> #[trigger] fields.contains_key(key)),
{
    let recipe = recipe_of(name)->Some_0;
    match recipe {
        RecipeView::Field(k) => {
            assert(reads_field(recipe, k));
        },
        RecipeView::Shortened(k, _) => {
            assert(reads_field(recipe, k));
        },
        RecipeView::Located(a, b) => {
            assert(reads_field(recipe, a));
            assert(reads_field(recipe, b));
        },
        RecipeView::Fixed(_) => {},
    }
}

} // verus!
