//! The template engine's settings and HTML escaping, and the handler that
//! maps request paths to static files.

use vstd::prelude::*;
use vstd::slice::slice_subrange;
use vstd::string::StringExecFns;
use crate::codec::{hex_encode, hex_text, sha256, sha256_digest};
use crate::string_map::{Pairs, StringMap};
use crate::template_values::{
    model, truthy, value_of, value_text, with_value, ContextView, TemplateContext, TemplateValue,
    TemplateValueView,
};
use crate::text::{chars_of, optional_text, slice_starts_with, starts_with, string_of, text_eq};

verus! {

/// The model of a template engine's settings.
pub struct TemplateEngineView {
    pub template_dir: Seq<char>,
    pub cache_enabled: bool,
    pub auto_escape: bool,
}

/// The settings of a template engine: where the templates are, whether
/// they are cached, and whether what is rendered is escaped.
#[derive(Debug)]
pub struct TemplateEngine {
    pub template_dir: String,
    pub cache_enabled: bool,
    pub auto_escape: bool,
}

impl View for TemplateEngine {
    type V = TemplateEngineView;

    open spec fn view(&self) -> TemplateEngineView {
        TemplateEngineView {
            template_dir: self.template_dir@,
            cache_enabled: self.cache_enabled,
            auto_escape: self.auto_escape,
        }
    }
}

impl Clone for TemplateEngine {
    fn clone(&self) -> (copy: TemplateEngine)
        ensures
            copy@ == self@,
    {
        TemplateEngine {
            template_dir: self.template_dir.clone(),
            cache_enabled: self.cache_enabled,
            auto_escape: self.auto_escape,
        }
    }
}

/// Why rendering failed.
#[derive(Debug)]
pub enum TemplateError {
    TemplateNotFound(String),
    IoError(String),
    RenderError(String),
}

impl TemplateError {
    /// The error's message.
    pub fn message(&self) -> (text: String)
        ensures
            text@ == match self {
                TemplateError::TemplateNotFound(name) => "Template not found: "@ + name@,
                TemplateError::IoError(cause) => "IO error: "@ + cause@,
                TemplateError::RenderError(cause) => "Render error: "@ + cause@,
            },
    {
        match self {
            TemplateError::TemplateNotFound(name) => {
                let mut text = String::from_str("Template not found: ");
                text.append(name.as_str());
                text
            },
            TemplateError::IoError(cause) => {
                let mut text = String::from_str("IO error: ");
                text.append(cause.as_str());
                text
            },
            TemplateError::RenderError(cause) => {
                let mut text = String::from_str("Render error: ");
                text.append(cause.as_str());
                text
            },
        }
    }
}

/// What a character becomes in escaped HTML.
pub open spec fn escaped_char(c: char) -> Seq<char> {
    if c == '&' {
        "&amp;"@
    } else if c == '<' {
        "&lt;"@
    } else if c == '>' {
        "&gt;"@
    } else if c == '"' {
        "&quot;"@
    } else if c == '\'' {
        "&#x27;"@
    } else {
        Seq::empty().push(c)
    }
}

/// The text with `&`, `<`, `>`, `"` and `'` replaced by their entities.
pub open spec fn escaped_html(text: Seq<char>) -> Seq<char>
    decreases text.len(),
{
    if text.len() == 0 {
        Seq::empty()
    } else {
        escaped_html(text.drop_last()) + escaped_char(text.last())
    }
}

impl TemplateEngine {
    /// An engine for the templates of a directory, with caching and
    /// escaping switched on.
    pub fn new(template_dir: &str) -> (engine: TemplateEngine)
        ensures
            engine@ == (TemplateEngineView {
                template_dir: template_dir@,
                cache_enabled: true,
                auto_escape: true,
            }),
    {
        TemplateEngine {
            template_dir: String::from_str(template_dir),
            cache_enabled: true,
            auto_escape: true,
        }
    }

    /// The engine with caching switched on or off.
    pub fn with_cache(self, enabled: bool) -> (engine: TemplateEngine)
        ensures
            engine@ == (TemplateEngineView { cache_enabled: enabled, ..self@ }),
    {
        let mut engine = self;
        engine.cache_enabled = enabled;
        engine
    }

    /// The engine with escaping switched on or off.
    pub fn with_auto_escape(self, enabled: bool) -> (engine: TemplateEngine)
        ensures
            engine@ == (TemplateEngineView { auto_escape: enabled, ..self@ }),
    {
        let mut engine = self;
        engine.auto_escape = enabled;
        engine
    }

    /// Escapes text for HTML.
    pub fn escape_html(&self, input: &str) -> (out: String)
        ensures
            out@ == escaped_html(input@),
    {
        let text = chars_of(input);
        let mut out = String::new();
        let mut i: usize = 0;
        while i < text.len()
            invariant
                i <= text.len(),
                text@ == input@,
                out@ == escaped_html(text@.take(i as int)),
            decreases text.len() - i,
        {
            assert(text@.take(i + 1).drop_last() =~= text@.take(i as int));
            let c = text[i];
            if c == '&' {
                out.append("&amp;");
            } else if c == '<' {
                out.append("&lt;");
            } else if c == '>' {
                out.append("&gt;");
            } else if c == '"' {
                out.append("&quot;");
            } else if c == '\'' {
                out.append("&#x27;");
            } else {
                out.append(string_of(slice_subrange(text.as_slice(), i, i + 1)).as_str());
            }
            i += 1;
        }
        assert(text@.take(text.len() as int) =~= text@);
        out
    }
}

/// The regular expression of a variable tag: a name between `{{` and
/// `}}`, with any whitespace around it.
pub const VARIABLE_TAG: &'static str = r"\{\{\s*(\w+)\s*\}\}";

/// The regular expression of a conditional block: `{% if name %}`, the
/// content, and `{% endif %}`.
pub const CONDITIONAL_BLOCK: &'static str = r"\{%\s*if\s+(\w+)\s*%\}(.*?)\{%\s*endif\s*%\}";

/// The regular expression of a loop block: `{% for item in array %}`, the
/// content, and `{% endfor %}`.
pub const LOOP_BLOCK: &'static str =
    r"\{%\s*for\s+(\w+)\s+in\s+(\w+)\s*%\}(.*?)\{%\s*endfor\s*%\}";

/// How many loops may run inside one another while a template is rendered.
pub const MAX_NESTING: usize = 64;

/// What the error says that is returned where loops run deeper inside one
/// another than `MAX_NESTING`.
pub const NESTING_MESSAGE: &'static str = "loops are nested too deeply";

/// What a match captured: for each group of the expression, the whole
/// match first, the text that the group took, if it took part.
pub type Groups = Seq<Option<Seq<char>>>;

/// The texts that stand between the matches of a regular expression in a
/// text, from left to right: what stands before the first match, between
/// each two matches that follow one another, and after the last. Nothing
/// where the expression does not compile.
pub uninterp spec fn pieces_between(expression: Seq<char>, text: Seq<char>) -> Option<
    Seq<Seq<char>>,
>;

/// The matches of a regular expression in a text, from left to right and
/// without overlap, each with what its groups captured. Nothing where the
/// expression does not compile.
pub uninterp spec fn captures_in(expression: Seq<char>, text: Seq<char>) -> Option<
    Seq<Seq<Option<Seq<char>>>>,
>;

/// The texts of strings.
pub open spec fn string_views(texts: Seq<String>) -> Seq<Seq<char>> {
    Seq::new(texts.len(), |i: int| texts[i]@)
}

/// The model of the pieces of a text.
pub open spec fn pieces_view(pieces: Option<Vec<String>>) -> Option<Seq<Seq<char>>> {
    match pieces {
        Some(texts) => Some(string_views(texts@)),
        None => None,
    }
}

/// The model of what a match captured.
pub open spec fn groups_view(groups: Vec<Option<String>>) -> Groups {
    Seq::new(groups@.len(), |k: int| optional_text(groups@[k]))
}

/// The models of matches.
pub open spec fn matches_view(found: Seq<Vec<Option<String>>>) -> Seq<Groups> {
    Seq::new(found.len(), |i: int| groups_view(found[i]))
}

/// The model of the matches in a text.
pub open spec fn found_view(found: Option<Vec<Vec<Option<String>>>>) -> Option<Seq<Groups>> {
    match found {
        Some(matches) => Some(matches_view(matches@)),
        None => None,
    }
}

/// Splits a text at the matches of a regular expression. Trusted:
/// `Regex::new` compiles the expression, and `Regex::split` yields the
/// parts of the text that no match covers, in order; both depend on the
/// two texts alone.
#[verifier::external_body]
fn split_at_matches(expression: &str, text: &str) -> (pieces: Option<Vec<String>>)
    ensures
        pieces_view(pieces) == pieces_between(expression@, text@),
{
    match regex::Regex::new(expression) {
        Ok(compiled) => Some(compiled.split(text).map(String::from).collect()),
        Err(_) => None,
    }
}

/// Finds the matches of a regular expression in a text. Trusted:
/// `Regex::new` compiles the expression, `Regex::captures_iter` yields
/// the matches in order, and `Captures::iter` the text of each group of a
/// match, or none for a group that took no part; all depend on the two
/// texts alone.
#[verifier::external_body]
fn find_matches(expression: &str, text: &str) -> (found: Option<Vec<Vec<Option<String>>>>)
    ensures
        found_view(found) == captures_in(expression@, text@),
{
    match regex::Regex::new(expression) {
        Ok(compiled) => Some(
            compiled.captures_iter(text).map(
                |one| one.iter().map(|group| group.map(|part| part.as_str().to_string())).collect(),
            ).collect(),
        ),
        Err(_) => None,
    }
}

/// The text that the group at position `k` captured; empty where the match
/// has no such group or the group took no part.
pub open spec fn group_text(groups: Groups, k: int) -> Seq<char> {
    if 0 <= k < groups.len() {
        match groups[k] {
            Some(text) => text,
            None => Seq::empty(),
        }
    } else {
        Seq::empty()
    }
}

/// The matches of an expression in a text; none where the expression does
/// not compile.
pub open spec fn found_in(expression: Seq<char>, text: Seq<char>) -> Seq<Groups> {
    match captures_in(expression, text) {
        Some(found) => found,
        None => Seq::empty(),
    }
}

/// What stands before the piece at position `i`: nothing before the first
/// piece, else the filling of the match that ends there, if there is one.
pub open spec fn fill_before(fills: Seq<Seq<char>>, i: int) -> Seq<char> {
    if 1 <= i <= fills.len() {
        fills[i - 1]
    } else {
        Seq::empty()
    }
}

/// The first `n` pieces, with a filling between each two.
pub open spec fn woven(pieces: Seq<Seq<char>>, fills: Seq<Seq<char>>, n: nat) -> Seq<char>
    decreases n,
{
    if n == 0 {
        Seq::empty()
    } else {
        woven(pieces, fills, (n - 1) as nat) + fill_before(fills, n - 1) + pieces[n - 1]
    }
}

/// The text with each match of the expression replaced by its filling;
/// the text itself where the expression does not compile.
pub open spec fn replaced(expression: Seq<char>, text: Seq<char>, fills: Seq<Seq<char>>) -> Seq<
    char,
> {
    match pieces_between(expression, text) {
        Some(pieces) => woven(pieces, fills, pieces.len()),
        None => text,
    }
}

/// What stands for a variable tag: the text of the value under its name,
/// or the tag itself, written with one space at either side of the name,
/// where the context has no such value.
pub open spec fn variable_replacement(context: ContextView, name: Seq<char>) -> Seq<char> {
    match value_of(context, name) {
        Some(value) => value_text(value),
        None => "{{ "@ + name + " }}"@,
    }
}

/// What stands for a conditional block: its content where the value under
/// the condition's name counts as true, else nothing.
pub open spec fn conditional_replacement(
    context: ContextView,
    condition: Seq<char>,
    content: Seq<char>,
) -> Seq<char> {
    match value_of(context, condition) {
        Some(value) => if truthy(value) {
            content
        } else {
            Seq::empty()
        },
        None => Seq::empty(),
    }
}

/// The fillings of variable tags: for each, what stands for the name that
/// its first group captured.
pub open spec fn variable_fills(context: ContextView, found: Seq<Groups>) -> Seq<Seq<char>> {
    Seq::new(found.len(), |i: int| variable_replacement(context, group_text(found[i], 1)))
}

/// The text with its variable tags replaced.
pub open spec fn variables_filled(context: ContextView, text: Seq<char>) -> Seq<char> {
    replaced(VARIABLE_TAG@, text, variable_fills(context, found_in(VARIABLE_TAG@, text)))
}

/// The fillings of conditional blocks: for each, what stands for the
/// condition that its first group captured and the content that its
/// second group captured.
pub open spec fn conditional_fills(context: ContextView, found: Seq<Groups>) -> Seq<Seq<char>> {
    Seq::new(
        found.len(),
        |i: int|
            conditional_replacement(context, group_text(found[i], 1), group_text(found[i], 2)),
    )
}

/// The text with its conditional blocks replaced.
pub open spec fn conditionals_filled(context: ContextView, text: Seq<char>) -> Seq<char> {
    replaced(
        CONDITIONAL_BLOCK@,
        text,
        conditional_fills(context, found_in(CONDITIONAL_BLOCK@, text)),
    )
}

/// What rendering a template yields while `depth` more loops may run
/// inside one another: the variable tags, then the conditional blocks,
/// then the loop blocks are replaced, and the result is escaped where the
/// engine escapes. Nothing where the loops run deeper.
pub open spec fn rendered_within(
    engine: TemplateEngineView,
    template: Seq<char>,
    context: ContextView,
    depth: nat,
) -> Option<Seq<char>>
    decreases depth, 3nat, 0nat,
{
    let text = conditionals_filled(context, variables_filled(context, template));
    let found = found_in(LOOP_BLOCK@, text);
    match loop_fills(engine, context, found, depth, found.len()) {
        None => None,
        Some(fills) => {
            let out = replaced(LOOP_BLOCK@, text, fills);
            Some(
                if engine.auto_escape {
                    escaped_html(out)
                } else {
                    out
                },
            )
        },
    }
}

/// The fillings of the first `n` loop blocks: for each, what stands for
/// the item's name, the array's name and the content that its three
/// groups captured. Nothing where one of them has none.
pub open spec fn loop_fills(
    engine: TemplateEngineView,
    context: ContextView,
    found: Seq<Groups>,
    depth: nat,
    n: nat,
) -> Option<Seq<Seq<char>>>
    decreases depth, 2nat, n,
{
    if n == 0 {
        Some(Seq::empty())
    } else {
        match loop_fills(engine, context, found, depth, (n - 1) as nat) {
            None => None,
            Some(before) => match loop_replacement(
                engine,
                context,
                group_text(found[n - 1], 1),
                group_text(found[n - 1], 2),
                group_text(found[n - 1], 3),
                depth,
            ) {
                None => None,
                Some(fill) => Some(before.push(fill)),
            },
        }
    }
}

/// What stands for a loop block: its content rendered once for each item
/// of the array under the array's name, or the empty text where the
/// context holds no array under that name. Nothing where no further loop
/// may run and the array has an item.
pub open spec fn loop_replacement(
    engine: TemplateEngineView,
    context: ContextView,
    item_name: Seq<char>,
    array_name: Seq<char>,
    content: Seq<char>,
    depth: nat,
) -> Option<Seq<char>>
    decreases depth, 1nat, 0nat,
{
    match value_of(context, array_name) {
        Some(TemplateValueView::Array(items)) => repeated(
            engine,
            context,
            item_name,
            items,
            content,
            depth,
            items.len(),
        ),
        _ => Some(Seq::empty()),
    }
}

/// The content of a loop rendered once for each of the first `count`
/// items, each time with the item under the item's name and with one loop
/// fewer to run inside.
pub open spec fn repeated(
    engine: TemplateEngineView,
    context: ContextView,
    item_name: Seq<char>,
    items: Seq<TemplateValueView>,
    content: Seq<char>,
    depth: nat,
    count: nat,
) -> Option<Seq<char>>
    decreases depth, 0nat, count,
{
    if count == 0 {
        Some(Seq::empty())
    } else if depth == 0 {
        None
    } else {
        match repeated(engine, context, item_name, items, content, depth, (count - 1) as nat) {
            None => None,
            Some(before) => match rendered_within(
                engine,
                content,
                with_value(context, item_name, items[count - 1]),
                (depth - 1) as nat,
            ) {
                None => None,
                Some(text) => Some(before + text),
            },
        }
    }
}

/// What rendering a template yields: its rendering while `MAX_NESTING`
/// loops may run inside one another.
pub open spec fn rendered(engine: TemplateEngineView, template: Seq<char>, context: ContextView)
    -> Option<Seq<char>> {
    rendered_within(engine, template, context, MAX_NESTING as nat)
}

/// The text that a rendering gave, if it gave one.
pub open spec fn render_outcome(r: Result<String, TemplateError>) -> Option<Seq<char>> {
    match r {
        Ok(text) => Some(text@),
        Err(_) => None,
    }
}

/// A rendering that failed says that the loops are nested too deeply.
pub open spec fn reports_nesting(r: Result<String, TemplateError>) -> bool {
    match r {
        Ok(_) => true,
        Err(TemplateError::RenderError(cause)) => cause@ == NESTING_MESSAGE@,
        Err(_) => false,
    }
}

/// Once an item has no rendering, no longer run of items has one.
proof fn lemma_repeated_fails(
    engine: TemplateEngineView,
    context: ContextView,
    item_name: Seq<char>,
    items: Seq<TemplateValueView>,
    content: Seq<char>,
    depth: nat,
    count: nat,
    longer: nat,
)
    requires
        repeated(engine, context, item_name, items, content, depth, count) is None,
        count <= longer,
    ensures
        repeated(engine, context, item_name, items, content, depth, longer) is None,
    decreases longer,
{
    if count < longer {
        lemma_repeated_fails(
            engine,
            context,
            item_name,
            items,
            content,
            depth,
            count,
            (longer - 1) as nat,
        );
    }
}

/// Once a loop block has no filling, no longer run of blocks has fillings.
proof fn lemma_loop_fills_fail(
    engine: TemplateEngineView,
    context: ContextView,
    found: Seq<Groups>,
    depth: nat,
    n: nat,
    longer: nat,
)
    requires
        loop_fills(engine, context, found, depth, n) is None,
        n <= longer,
    ensures
        loop_fills(engine, context, found, depth, longer) is None,
    decreases longer,
{
    if n < longer {
        lemma_loop_fills_fail(engine, context, found, depth, n, (longer - 1) as nat);
    }
}

/// The text that the group at position `k` captured.
fn group_str(groups: &Vec<Option<String>>, k: usize) -> (out: &str)
    ensures
        out@ == group_text(groups_view(*groups), k as int),
{
    proof {
        reveal_strlit("");
    }
    if k < groups.len() {
        match &groups[k] {
            Some(text) => text.as_str(),
            None => "",
        }
    } else {
        ""
    }
}

/// The matches of an expression in a text.
fn matches_in(expression: &str, text: &str) -> (found: Vec<Vec<Option<String>>>)
    ensures
        matches_view(found@) == found_in(expression@, text@),
{
    match find_matches(expression, text) {
        Some(found) => found,
        None => {
            let found: Vec<Vec<Option<String>>> = Vec::new();
            assert(matches_view(found@) =~= Seq::<Groups>::empty());
            found
        },
    }
}

/// Weaves the fillings between the pieces.
fn weave(pieces: &Vec<String>, fills: &Vec<String>) -> (out: String)
    ensures
        out@ == woven(string_views(pieces@), string_views(fills@), pieces@.len()),
{
    let mut out = String::new();
    let mut i: usize = 0;
    while i < pieces.len()
        invariant
            i <= pieces.len(),
            out@ == woven(string_views(pieces@), string_views(fills@), i as nat),
        decreases pieces.len() - i,
    {
        if 1 <= i && i <= fills.len() {
            out.append(fills[i - 1].as_str());
        }
        out.append(pieces[i].as_str());
        i += 1;
    }
    out
}

/// Replaces each match of the expression by its filling.
fn replace_matches(expression: &str, text: &str, fills: &Vec<String>) -> (out: String)
    ensures
        out@ == replaced(expression@, text@, string_views(fills@)),
{
    match split_at_matches(expression, text) {
        Some(pieces) => weave(&pieces, fills),
        None => String::from_str(text),
    }
}

impl TemplateEngine {
    /// What stands for the variable tag of the given name.
    pub fn variable_text(&self, context: &TemplateContext, name: &str) -> (out: String)
        ensures
            out@ == variable_replacement(context@, name@),
    {
        match context.get(name) {
            Some(value) => value.to_text(),
            None => {
                let mut tag = String::from_str("{{ ");
                tag.append(name);
                tag.append(" }}");
                tag
            },
        }
    }

    /// What stands for a conditional block.
    pub fn conditional_text(&self, context: &TemplateContext, condition: &str, content: &str) -> (out:
        String)
        ensures
            out@ == conditional_replacement(context@, condition@, content@),
    {
        match context.get(condition) {
            Some(value) => {
                if value.is_truthy() {
                    String::from_str(content)
                } else {
                    String::new()
                }
            },
            None => String::new(),
        }
    }

    /// Replaces the variable tags of a text.
    fn fill_variables(&self, text: &str, context: &TemplateContext) -> (out: String)
        ensures
            out@ == variables_filled(context@, text@),
    {
        let found = matches_in(VARIABLE_TAG, text);
        let mut fills: Vec<String> = Vec::new();
        let mut i: usize = 0;
        while i < found.len()
            invariant
                i <= found.len(),
                fills@.len() == i,
                forall|j: int|
                    0 <= j < i ==> (#[trigger] fills@[j])@ == variable_replacement(
                        context@,
                        group_text(groups_view(found@[j]), 1),
                    ),
            decreases found.len() - i,
        {
            fills.push(self.variable_text(context, group_str(&found[i], 1)));
            i += 1;
        }
        assert(string_views(fills@) =~= variable_fills(context@, matches_view(found@)));
        replace_matches(VARIABLE_TAG, text, &fills)
    }

    /// Replaces the conditional blocks of a text.
    fn fill_conditionals(&self, text: &str, context: &TemplateContext) -> (out: String)
        ensures
            out@ == conditionals_filled(context@, text@),
    {
        let found = matches_in(CONDITIONAL_BLOCK, text);
        let mut fills: Vec<String> = Vec::new();
        let mut i: usize = 0;
        while i < found.len()
            invariant
                i <= found.len(),
                fills@.len() == i,
                forall|j: int|
                    0 <= j < i ==> (#[trigger] fills@[j])@ == conditional_replacement(
                        context@,
                        group_text(groups_view(found@[j]), 1),
                        group_text(groups_view(found@[j]), 2),
                    ),
            decreases found.len() - i,
        {
            fills.push(
                self.conditional_text(
                    context,
                    group_str(&found[i], 1),
                    group_str(&found[i], 2),
                ),
            );
            i += 1;
        }
        assert(string_views(fills@) =~= conditional_fills(context@, matches_view(found@)));
        replace_matches(CONDITIONAL_BLOCK, text, &fills)
    }

    /// What stands for a loop block while `depth` more loops may run
    /// inside one another.
    pub fn loop_text(
        &self,
        context: &TemplateContext,
        item_name: &str,
        array_name: &str,
        content: &str,
        depth: usize,
    ) -> (r: Result<String, TemplateError>)
        ensures
            render_outcome(r) == loop_replacement(
                self@,
                context@,
                item_name@,
                array_name@,
                content@,
                depth as nat,
            ),
            reports_nesting(r),
        decreases depth, 0nat,
    {
        let mut out = String::new();
        if let Some(TemplateValue::Array(items)) = context.get(array_name) {
            let ghost views = model(TemplateValue::Array(*items))->Array_0;
            if items.len() > 0 && depth == 0 {
                proof {
                    lemma_repeated_fails(
                        self@,
                        context@,
                        item_name@,
                        views,
                        content@,
                        0,
                        1,
                        views.len(),
                    );
                }
                return Err(TemplateError::RenderError(String::from_str(NESTING_MESSAGE)));
            }
            let mut i: usize = 0;
            while i < items.len()
                invariant
                    i <= items.len(),
                    depth > 0 || items.len() == 0,
                    value_of(context@, array_name@) == Some(TemplateValueView::Array(views)),
                    views.len() == items@.len(),
                    forall|j: int| 0 <= j < items@.len() ==> views[j] == model(items@[j]),
                    repeated(self@, context@, item_name@, views, content@, depth as nat, i as nat)
                        == Some(out@),
                decreases items.len() - i,
            {
                let mut scope = context.copy();
                scope.insert(String::from_str(item_name), items[i].copy());
                match self.render_within(content, &scope, depth - 1) {
                    Ok(text) => {
                        out.append(text.as_str());
                    },
                    Err(error) => {
                        proof {
                            lemma_repeated_fails(
                                self@,
                                context@,
                                item_name@,
                                views,
                                content@,
                                depth as nat,
                                (i + 1) as nat,
                                views.len(),
                            );
                        }
                        return Err(error);
                    },
                }
                i += 1;
            }
        }
        Ok(out)
    }

    /// Replaces the loop blocks of a text.
    fn fill_loops(&self, text: &str, context: &TemplateContext, depth: usize) -> (r: Result<
        String,
        TemplateError,
    >)
        ensures
            render_outcome(r) == match loop_fills(
                self@,
                context@,
                found_in(LOOP_BLOCK@, text@),
                depth as nat,
                found_in(LOOP_BLOCK@, text@).len(),
            ) {
                Some(fills) => Some(replaced(LOOP_BLOCK@, text@, fills)),
                None => None,
            },
            reports_nesting(r),
        decreases depth, 1nat,
    {
        let found = matches_in(LOOP_BLOCK, text);
        let ghost blocks = matches_view(found@);
        let mut fills: Vec<String> = Vec::new();
        let mut i: usize = 0;
        assert(string_views(fills@) =~= Seq::<Seq<char>>::empty());
        while i < found.len()
            invariant
                i <= found.len(),
                blocks == matches_view(found@),
                blocks == found_in(LOOP_BLOCK@, text@),
                loop_fills(self@, context@, blocks, depth as nat, i as nat) == Some(
                    string_views(fills@),
                ),
            decreases found.len() - i,
        {
            let ghost before = string_views(fills@);
            match self.loop_text(
                context,
                group_str(&found[i], 1),
                group_str(&found[i], 2),
                group_str(&found[i], 3),
                depth,
            ) {
                Ok(fill) => {
                    fills.push(fill);
                    assert(string_views(fills@) =~= before.push(fill@));
                },
                Err(error) => {
                    proof {
                        lemma_loop_fills_fail(
                            self@,
                            context@,
                            blocks,
                            depth as nat,
                            (i + 1) as nat,
                            blocks.len(),
                        );
                    }
                    return Err(error);
                },
            }
            i += 1;
        }
        Ok(replace_matches(LOOP_BLOCK, text, &fills))
    }

    /// Renders a template with a context while `depth` more loops may run
    /// inside one another.
    pub fn render_within(&self, template: &str, context: &TemplateContext, depth: usize) -> (r:
        Result<String, TemplateError>)
        ensures
            render_outcome(r) == rendered_within(self@, template@, context@, depth as nat),
            reports_nesting(r),
        decreases depth, 2nat,
    {
        let with_variables = self.fill_variables(template, context);
        let with_conditionals = self.fill_conditionals(with_variables.as_str(), context);
        match self.fill_loops(with_conditionals.as_str(), context, depth) {
            Ok(with_loops) => {
                if self.auto_escape {
                    Ok(self.escape_html(with_loops.as_str()))
                } else {
                    Ok(with_loops)
                }
            },
            Err(error) => Err(error),
        }
    }

    /// Renders a template with a context. Loops may run inside one
    /// another `MAX_NESTING` deep; where they run deeper the rendering
    /// fails.
    pub fn render_string(&self, template: &str, context: &TemplateContext) -> (r: Result<
        String,
        TemplateError,
    >)
        ensures
            render_outcome(r) == rendered(self@, template@, context@),
            reports_nesting(r),
    {
        self.render_within(template, context, MAX_NESTING)
    }
}

/// Joins a relative path to a directory. Trusted: the body calls
/// `Path::join` and reads the result as text. What the joined path looks
/// like depends on the platform's separators, so nothing is stated of it.
#[verifier::external_body]
fn join_path(directory: &str, relative: &str) -> (out: String) {
    std::path::Path::new(directory).join(relative).to_string_lossy().into_owned()
}

/// The extension of a path. Trusted: the body calls `Path::extension` and
/// reads the result as text. Where the file name of a path begins depends
/// on the platform's separators, so nothing is stated of the result.
#[verifier::external_body]
fn extension_of(path: &str) -> (out: Option<String>) {
    std::path::Path::new(path).extension().and_then(|e| e.to_str()).map(String::from)
}

/// The content type that goes with a file extension.
pub open spec fn content_type_of(extension: Option<Seq<char>>) -> Seq<char> {
    match extension {
        None => "application/octet-stream"@,
        Some(e) => if e == "html"@ {
            "text/html; charset=utf-8"@
        } else if e == "css"@ {
            "text/css"@
        } else if e == "js"@ {
            "application/javascript"@
        } else if e == "json"@ {
            "application/json"@
        } else if e == "png"@ {
            "image/png"@
        } else if e == "jpg"@ || e == "jpeg"@ {
            "image/jpeg"@
        } else if e == "gif"@ {
            "image/gif"@
        } else if e == "svg"@ {
            "image/svg+xml"@
        } else if e == "ico"@ {
            "image/x-icon"@
        } else if e == "woff"@ {
            "font/woff"@
        } else if e == "woff2"@ {
            "font/woff2"@
        } else if e == "ttf"@ {
            "font/ttf"@
        } else if e == "eot"@ {
            "application/vnd.ms-fontobject"@
        } else if e == "pdf"@ {
            "application/pdf"@
        } else if e == "txt"@ {
            "text/plain; charset=utf-8"@
        } else {
            "application/octet-stream"@
        },
    }
}

/// The content type that goes with a file extension.
pub fn content_type_for(extension: Option<&str>) -> (content_type: String)
    ensures
        content_type@ == content_type_of(
            match extension {
                Some(e) => Some(e@),
                None => None,
            },
        ),
{
    let e = match extension {
        Some(e) => e,
        None => {
            return String::from_str("application/octet-stream");
        },
    };
    let name = if text_eq(e, "html") {
        "text/html; charset=utf-8"
    } else if text_eq(e, "css") {
        "text/css"
    } else if text_eq(e, "js") {
        "application/javascript"
    } else if text_eq(e, "json") {
        "application/json"
    } else if text_eq(e, "png") {
        "image/png"
    } else if text_eq(e, "jpg") || text_eq(e, "jpeg") {
        "image/jpeg"
    } else if text_eq(e, "gif") {
        "image/gif"
    } else if text_eq(e, "svg") {
        "image/svg+xml"
    } else if text_eq(e, "ico") {
        "image/x-icon"
    } else if text_eq(e, "woff") {
        "font/woff"
    } else if text_eq(e, "woff2") {
        "font/woff2"
    } else if text_eq(e, "ttf") {
        "font/ttf"
    } else if text_eq(e, "eot") {
        "application/vnd.ms-fontobject"
    } else if text_eq(e, "pdf") {
        "application/pdf"
    } else if text_eq(e, "txt") {
        "text/plain; charset=utf-8"
    } else {
        "application/octet-stream"
    };
    String::from_str(name)
}

/// The number of `/` that a text begins with.
pub open spec fn leading_slashes(text: Seq<char>) -> nat
    decreases text.len(),
{
    if text.len() == 0 || text[0] != '/' {
        0
    } else {
        1 + leading_slashes(text.skip(1))
    }
}

/// Whether `..` occurs in a text.
pub open spec fn has_parent_step(text: Seq<char>) -> bool {
    exists|i: int| 0 <= i < text.len() - 1 && #[trigger] text[i] == '.' && text[i + 1] == '.'
}

/// What is left of a request path after a prefix and the slashes that
/// follow it.
pub open spec fn relative_part(request_path: Seq<char>, prefix: Seq<char>) -> Seq<char> {
    let rest = request_path.skip(prefix.len() as int);
    rest.skip(leading_slashes(rest) as int)
}

/// The position of the first directory whose prefix the request path
/// begins with, or the number of directories where there is none.
pub open spec fn serving_directory(dirs: Pairs, request_path: Seq<char>) -> nat
    decreases dirs.len(),
{
    if dirs.len() == 0 || starts_with(request_path, dirs[0].0) {
        0
    } else {
        1 + serving_directory(dirs.skip(1), request_path)
    }
}

/// Where a request path leads: the directory of the first prefix that the
/// path begins with, and the rest of the path after that prefix and the
/// slashes that follow it; nowhere where no prefix fits, and nowhere where
/// the rest holds `..`.
pub open spec fn location_of(dirs: Pairs, request_path: Seq<char>) -> Option<
    (Seq<char>, Seq<char>),
> {
    let at = serving_directory(dirs, request_path);
    if at == dirs.len() {
        None
    } else {
        let relative = relative_part(request_path, dirs[at as int].0);
        if has_parent_step(relative) {
            None
        } else {
            Some((dirs[at as int].1, relative))
        }
    }
}

/// A located file as a pair of texts.
pub open spec fn location_view(location: Option<(String, String)>) -> Option<
    (Seq<char>, Seq<char>),
> {
    match location {
        Some((directory, relative)) => Some((directory@, relative@)),
        None => None,
    }
}

/// The entity tag of a content.
pub open spec fn entity_tag(content: Seq<u8>) -> Seq<char> {
    "\""@ + hex_text(sha256_digest(content).subrange(0, 8)) + "\""@
}

/// The model of a static file handler.
pub struct StaticFileHandlerView {
    pub static_dirs: Pairs,
    pub cache_max_age: u32,
    pub enable_etag: bool,
}

/// Maps request paths to files: each route prefix has a directory.
pub struct StaticFileHandler {
    pub static_dirs: StringMap,
    pub cache_max_age: u32,
    pub enable_etag: bool,
}

impl View for StaticFileHandler {
    type V = StaticFileHandlerView;

    open spec fn view(&self) -> StaticFileHandlerView {
        StaticFileHandlerView {
            static_dirs: self.static_dirs@,
            cache_max_age: self.cache_max_age,
            enable_etag: self.enable_etag,
        }
    }
}

/// Whether `..` occurs in a text.
fn contains_parent_step(text: &[char]) -> (r: bool)
    ensures
        r == has_parent_step(text@),
{
    if text.len() < 2 {
        return false;
    }
    let mut i: usize = 0;
    while i < text.len() - 1
        invariant
            text.len() >= 2,
            i <= text.len() - 1,
            forall|j: int| 0 <= j < i ==> !(#[trigger] text@[j] == '.' && text@[j + 1] == '.'),
        decreases text.len() - i,
    {
        if text[i] == '.' && text[i + 1] == '.' {
            return true;
        }
        i += 1;
    }
    false
}

/// The number of `/` that a text begins with.
fn count_leading_slashes(text: &[char]) -> (n: usize)
    ensures
        n == leading_slashes(text@),
        n <= text.len(),
{
    let mut i: usize = 0;
    assert(text@.skip(0) =~= text@);
    while i < text.len() && text[i] == '/'
        invariant
            i <= text.len(),
            leading_slashes(text@) == i + leading_slashes(text@.skip(i as int)),
        decreases text.len() - i,
    {
        assert(text@.skip(i as int).skip(1) =~= text@.skip(i + 1));
        i += 1;
    }
    i
}

impl StaticFileHandler {
    /// A handler without directories, with a cache age of one hour and
    /// entity tags switched on.
    pub fn new() -> (handler: StaticFileHandler)
        ensures
            handler@ == (StaticFileHandlerView {
                static_dirs: Pairs::empty(),
                cache_max_age: 3600,
                enable_etag: true,
            }),
    {
        StaticFileHandler { static_dirs: StringMap::new(), cache_max_age: 3600, enable_etag: true }
    }

    /// Serves `directory` under `route_prefix`.
    pub fn add_directory(&mut self, route_prefix: &str, directory: &str)
        ensures
            final(self)@ == (StaticFileHandlerView {
                static_dirs: crate::string_map::with_entry(
                    old(self)@.static_dirs,
                    route_prefix@,
                    directory@,
                ),
                ..old(self)@
            }),
    {
        self.static_dirs.insert(String::from_str(route_prefix), String::from_str(directory));
    }

    /// Where a request path leads: the serving directory and the path of
    /// the file below it.
    pub fn locate(&self, request_path: &str) -> (location: Option<(String, String)>)
        ensures
            location_view(location) == location_of(self@.static_dirs, request_path@),
    {
        let text = chars_of(request_path);
        let request = text.as_slice();
        let ghost dirs = self.static_dirs@;
        let mut i: usize = 0;
        assert(dirs.skip(0) =~= dirs);
        while i < self.static_dirs.len()
            invariant
                i <= self.static_dirs@.len(),
                dirs == self.static_dirs@,
                request@ == request_path@,
                serving_directory(dirs, request_path@) == i + serving_directory(
                    dirs.skip(i as int),
                    request_path@,
                ),
            decreases self.static_dirs@.len() - i,
        {
            assert(dirs.skip(i as int).skip(1) =~= dirs.skip(i + 1));
            assert(request@.skip(0) =~= request@);
            let prefix = chars_of(self.static_dirs.name_at(i).as_str());
            if slice_starts_with(request, 0, prefix.as_slice()) {
                let rest = slice_subrange(request, prefix.len(), request.len());
                let slashes = count_leading_slashes(rest);
                let relative = slice_subrange(rest, slashes, rest.len());
                if contains_parent_step(relative) {
                    return None;
                }
                return Some((self.static_dirs.value_at(i).clone(), string_of(relative)));
            }
            i += 1;
        }
        None
    }

    /// The file that a request path names: the path below the serving
    /// directory, joined to that directory as the platform joins paths.
    /// There is one exactly where the request path leads somewhere.
    pub fn get_file_path(&self, request_path: &str) -> (file: Option<String>)
        ensures
            file is Some <==> location_of(self@.static_dirs, request_path@) is Some,
    {
        match self.locate(request_path) {
            Some((directory, relative)) => Some(join_path(directory.as_str(), relative.as_str())),
            None => None,
        }
    }

    /// The entity tag of a content: in double quotes, the first eight
    /// bytes of its SHA-256 digest in hexadecimal.
    pub fn generate_etag(&self, content: &[u8]) -> (etag: String)
        ensures
            etag@ == entity_tag(content@),
    {
        let digest = sha256(content);
        let head = slice_subrange(digest.as_slice(), 0, 8);
        let mut etag = String::from_str("\"");
        etag.append(hex_encode(head).as_str());
        etag.append("\"");
        etag
    }

    /// The content type of a file, by the extension that the platform
    /// reads off its path: the content type of some extension, or of none.
    pub fn get_content_type(&self, file_path: &str) -> (content_type: String)
        ensures
            exists|extension: Option<Seq<char>>| content_type@ == content_type_of(extension),
    {
        match extension_of(file_path) {
            Some(extension) => {
                let content_type = content_type_for(Some(extension.as_str()));
                assert(content_type@ == content_type_of(Some(extension@)));
                content_type
            },
            None => {
                let content_type = content_type_for(None);
                assert(content_type@ == content_type_of(None));
                content_type
            },
        }
    }
}

impl Default for StaticFileHandler {
    fn default() -> (handler: StaticFileHandler)
        ensures
            handler@ == (StaticFileHandlerView {
                static_dirs: Pairs::empty(),
                cache_max_age: 3600,
                enable_etag: true,
            }),
    {
        StaticFileHandler::new()
    }
}

} // verus!
