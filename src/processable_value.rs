use vstd::prelude::*;

use crate::error::PlanError;
use crate::json::{Json, JsonValue};
use crate::text::same_text;

verus! {

/// The meaning of a list of bindings: later bindings of a name replace earlier ones.
pub open spec fn bindings(entries: Seq<(String, String)>) -> Map<Seq<char>, Seq<char>>
    decreases entries.len(),
{
    if entries.len() == 0 {
        Map::empty()
    } else {
        bindings(entries.drop_last()).insert(entries.last().0@, entries.last().1@)
    }
}

/// Bindings depend on the texts of their entries alone.
proof fn lemma_bindings_same_texts(a: Seq<(String, String)>, b: Seq<(String, String)>)
    requires
        a.len() == b.len(),
        forall|k: int| 0 <= k < a.len() ==> #[trigger] a[k].0@ == b[k].0@ && a[k].1@ == b[k].1@,
    ensures
        bindings(a) == bindings(b),
    decreases a.len(),
{
    if a.len() > 0 {
        lemma_bindings_same_texts(a.drop_last(), b.drop_last());
    }
}

/// The variable environment that templates are rendered against.
#[derive(Clone, Debug)]
pub struct Variables {
    entries: Vec<(String, String)>,
}

impl View for Variables {
    type V = Map<Seq<char>, Seq<char>>;

    closed spec fn view(&self) -> Map<Seq<char>, Seq<char>> {
        bindings(self.entries@)
    }
}

impl Variables {
    /// An environment without any variable.
    pub fn new() -> (r: Variables)
        ensures
            r@ == Map::<Seq<char>, Seq<char>>::empty(),
    {
        Variables { entries: Vec::new() }
    }

    /// A copy of these bindings.
    pub fn clone_bindings(&self) -> (r: Variables)
        ensures
            r@ == self@,
    {
        let mut entries: Vec<(String, String)> = Vec::new();
        let mut i: usize = 0;
        while i < self.entries.len()
            invariant
                i <= self.entries@.len(),
                entries@.len() == i,
                forall|k: int|
                    0 <= k < i ==> #[trigger] entries@[k].0@ == self.entries@[k].0@ && entries@[k].1@
                        == self.entries@[k].1@,
            decreases self.entries@.len() - i,
        {
            let e = &self.entries[i];
            entries.push((e.0.clone(), e.1.clone()));
            i = i + 1;
        }
        let r = Variables { entries };
        proof {
            lemma_bindings_same_texts(r.entries@, self.entries@);
        }
        r
    }

    /// Binds `name` to `value`, replacing an earlier binding of `name`.
    pub fn insert(&mut self, name: String, value: String)
        ensures
            final(self)@ == old(self)@.insert(name@, value@),
    {
        let ghost before = self.entries@;
        self.entries.push((name, value));
        assert(self.entries@.drop_last() =~= before);
    }
}

#[verifier::external_type_specification]
#[verifier::external_body]
pub struct ExFmtError(strfmt::FmtError);

/// What named-placeholder substitution makes of a template under some bindings,
/// or `None` where it fails (a placeholder without a binding, a malformed template).
pub uninterp spec fn formatted(template: Seq<char>, vars: Map<Seq<char>, Seq<char>>) -> Option<
    Seq<char>,
>;

/// Relies on strfmt::strfmt: it substitutes the named placeholders of `template`
/// from the bindings, and its outcome depends on the text and the bindings alone.
#[verifier::external_body]
fn substitute(template: &str, variables: &Variables) -> (r: Result<String, strfmt::FmtError>)
    ensures
        r is Ok <==> formatted(template@, variables@) is Some,
        r is Ok ==> formatted(template@, variables@) == Some(r->Ok_0@),
{
    let map: std::collections::HashMap<String, String> = variables.entries.iter().cloned().collect();
    strfmt::strfmt(template, &map)
}

/// A value of a plan: a literal JSON value, a string template, or a sequence of
/// such values.
///
/// A value with `content` is a literal, or a template when `is_template` holds;
/// a value without `content` is the sequence of its `contents`.
#[derive(Debug)]
pub struct ProcessableValue {
    pub is_template: bool,
    pub content: Option<JsonValue>,
    pub contents: Vec<ProcessableValue>,
}

/// What rendering `v` against `vars` yields.
pub open spec fn rendered(v: ProcessableValue, vars: Map<Seq<char>, Seq<char>>) -> Result<
    Json,
    PlanError,
>
    decreases v, 1nat,
{
    match v.content {
        Some(c) => {
            if v.is_template {
                match c {
                    JsonValue::Str(t) => match formatted(t@, vars) {
                        Some(s) => Ok(Json::Str(s)),
                        None => Err(PlanError::TemplateFailed),
                    },
                    _ => Err(PlanError::TemplateNotString),
                }
            } else {
                Ok(c@)
            }
        },
        None => match rendered_items(v, v.contents@.len() as int, vars) {
            Ok(s) => Ok(Json::Array(s)),
            Err(e) => Err(e),
        },
    }
}

/// What rendering the first `n` elements of the sequence `v` yields, in order:
/// the first failure, or every result.
pub open spec fn rendered_items(v: ProcessableValue, n: int, vars: Map<Seq<char>, Seq<char>>) -> Result<
    Seq<Json>,
    PlanError,
>
    decreases v, 0nat, n,
{
    if n <= 0 || n > v.contents@.len() {
        Ok(Seq::empty())
    } else {
        match rendered_items(v, n - 1, vars) {
            Err(e) => Err(e),
            Ok(s) => match rendered(v.contents@[n - 1], vars) {
                Ok(j) => Ok(s.push(j)),
                Err(e) => Err(e),
            },
        }
    }
}

/// Once a prefix of a sequence fails to render, every longer prefix fails the same way.
proof fn lemma_items_failure_persists(
    v: ProcessableValue,
    n: int,
    m: int,
    vars: Map<Seq<char>, Seq<char>>,
)
    requires
        0 <= n <= m <= v.contents@.len(),
        rendered_items(v, n, vars) is Err,
    ensures
        rendered_items(v, m, vars) == rendered_items(v, n, vars),
    decreases m - n,
{
    if m > n {
        lemma_items_failure_persists(v, n, m - 1, vars);
    }
}

/// A literal renders to its own content whatever the variables are.
pub proof fn law_literal_ignores_variables(
    v: ProcessableValue,
    vars: Map<Seq<char>, Seq<char>>,
    other: Map<Seq<char>, Seq<char>>,
)
    requires
        v.content is Some,
        !v.is_template,
    ensures
        rendered(v, vars) == Ok::<Json, PlanError>(v.content->0@),
        rendered(v, vars) == rendered(v, other),
{
}

/// A prefix of a sequence renders when each of its elements does, to the list of
/// their results in order.
proof fn lemma_items_elementwise(v: ProcessableValue, n: int, vars: Map<Seq<char>, Seq<char>>)
    requires
        0 <= n <= v.contents@.len(),
    ensures
        rendered_items(v, n, vars) is Ok <==> (forall|i: int|
            0 <= i < n ==> #[trigger] rendered(v.contents@[i], vars) is Ok),
        rendered_items(v, n, vars) is Ok ==> rendered_items(v, n, vars)->Ok_0.len() == n && (forall|
            i: int,
        |
            0 <= i < n ==> rendered_items(v, n, vars)->Ok_0[i] == #[trigger] rendered(
                v.contents@[i],
                vars,
            )->Ok_0),
    decreases n,
{
    if n > 0 {
        lemma_items_elementwise(v, n - 1, vars);
        if forall|i: int| 0 <= i < n ==> #[trigger] rendered(v.contents@[i], vars) is Ok {
            assert(rendered(v.contents@[n - 1], vars) is Ok);
            assert forall|i: int| 0 <= i < n - 1 implies #[trigger] rendered(
                v.contents@[i],
                vars,
            ) is Ok by {}
        }
    }
}

/// A sequence of `n` values renders to an array of `n` results, each the rendering
/// of the element at the same place, when every element renders, and fails
/// otherwise; an empty sequence renders to an empty array.
pub proof fn law_sequence_renders_elementwise(v: ProcessableValue, vars: Map<Seq<char>, Seq<char>>)
    requires
        v.content is None,
    ensures
        rendered(v, vars) is Ok <==> (forall|i: int|
            0 <= i < v.contents@.len() ==> #[trigger] rendered(v.contents@[i], vars) is Ok),
        rendered(v, vars) is Ok ==> rendered(v, vars)->Ok_0 is Array && rendered(
            v,
            vars,
        )->Ok_0->Array_0.len() == v.contents@.len() && (forall|i: int|
            0 <= i < v.contents@.len() ==> rendered(v, vars)->Ok_0->Array_0[i]
                == #[trigger] rendered(v.contents@[i], vars)->Ok_0),
        v.contents@.len() == 0 ==> rendered(v, vars) == Ok::<Json, PlanError>(
            Json::Array(Seq::empty()),
        ),
{
    lemma_items_elementwise(v, v.contents@.len() as int, vars);
}

/// The models of a list of JSON values.
pub open spec fn json_models(items: Seq<JsonValue>) -> Seq<Json> {
    items.map_values(|j: JsonValue| j@)
}

impl ProcessableValue {
    /// A literal value.
    pub fn fixed(content: JsonValue) -> (r: ProcessableValue)
        ensures
            !r.is_template,
            r.content == Some(content),
            r.contents@.len() == 0,
    {
        ProcessableValue { is_template: false, content: Some(content), contents: Vec::new() }
    }

    /// A template, to be rendered by named-placeholder substitution.
    pub fn template(content: JsonValue) -> (r: ProcessableValue)
        ensures
            r.is_template,
            r.content == Some(content),
            r.contents@.len() == 0,
    {
        ProcessableValue { is_template: true, content: Some(content), contents: Vec::new() }
    }

    /// A sequence of values, rendered element by element.
    pub fn sequence(contents: Vec<ProcessableValue>) -> (r: ProcessableValue)
        ensures
            !r.is_template,
            r.content is None,
            r.contents == contents,
    {
        ProcessableValue { is_template: false, content: None, contents }
    }

    /// The value of a tagged plan entry: `static` (also an empty tag) gives a
    /// literal, `template` a template, and any other tag is refused.
    pub fn from_tagged(tag: &str, value: JsonValue) -> (r: Result<ProcessableValue, PlanError>)
        ensures
            (tag@ == ""@ || tag@ == "static"@) ==> (r matches Ok(p) && !p.is_template
                && p.content == Some(value) && p.contents@.len() == 0),
            tag@ == "template"@ ==> (r matches Ok(p) && p.is_template && p.content == Some(value)
                && p.contents@.len() == 0),
            !(tag@ == ""@ || tag@ == "static"@ || tag@ == "template"@) ==> (r matches Err(
                PlanError::UnknownTag(t),
            ) && t@ == tag@),
    {
        proof {
            reveal_strlit("");
            reveal_strlit("static");
            reveal_strlit("template");
            assert("template"@.len() != "static"@.len());
            assert("template"@.len() != ""@.len());
        }
        if same_text(tag, "") || same_text(tag, "static") {
            Ok(ProcessableValue::fixed(value))
        } else if same_text(tag, "template") {
            Ok(ProcessableValue::template(value))
        } else {
            Err(PlanError::UnknownTag(tag.to_string()))
        }
    }

    /// Renders this value against `variables`: a literal as it is, a template by
    /// substitution, a sequence as the array of its rendered elements.
    pub fn render(&self, variables: &Variables) -> (r: Result<JsonValue, PlanError>)
        ensures
            match r {
                Ok(j) => rendered(*self, variables@) == Ok::<Json, PlanError>(j@),
                Err(e) => rendered(*self, variables@) == Err::<Json, PlanError>(e),
            },
        decreases self,
    {
        match &self.content {
            Some(c) => {
                if self.is_template {
                    match c {
                        JsonValue::Str(t) => match substitute(t.as_str(), variables) {
                            Ok(s) => Ok(JsonValue::Str(s)),
                            Err(_) => Err(PlanError::TemplateFailed),
                        },
                        _ => Err(PlanError::TemplateNotString),
                    }
                } else {
                    Ok(c.duplicate())
                }
            },
            None => {
                let mut out: Vec<JsonValue> = Vec::new();
                let mut i: usize = 0;
                assert(json_models(out@) =~= Seq::<Json>::empty());
                while i < self.contents.len()
                    invariant
                        self.content is None,
                        i <= self.contents@.len(),
                        rendered_items(*self, i as int, variables@) == Ok::<Seq<Json>, PlanError>(
                            json_models(out@),
                        ),
                    decreases self.contents@.len() - i,
                {
                    proof {
                        assert(decreases_to!(self.contents => self.contents[i as int]));
                    }
                    match self.contents[i].render(variables) {
                        Ok(item) => {
                            let ghost before = out@;
                            out.push(item);
                            assert(json_models(out@) =~= json_models(before).push(item@));
                        },
                        Err(e) => {
                            proof {
                                lemma_items_failure_persists(
                                    *self,
                                    i + 1,
                                    self.contents@.len() as int,
                                    variables@,
                                );
                            }
                            return Err(e);
                        },
                    }
                    i = i + 1;
                }
                proof {
                    assert(JsonValue::Array(out)@->Array_0 =~= json_models(out@));
                }
                Ok(JsonValue::Array(out))
            },
        }
    }
}

} // verus!
