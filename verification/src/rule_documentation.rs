//! The documentation of the rules: every rule with its configured severity, and the
//! explanation of one rule together with its current configuration.

pub mod catalog;
pub mod summary;

use vstd::prelude::*;
use crate::chars::{push_str, string_of};
use crate::config::{severity_keyword, ProjectConfig, Severity};
use crate::rule_documentation::catalog::{all_rules, catalog, doc_views, DocView};
use crate::rule_documentation::summary::{string_views, summarize, summary_spec};

verus! {

/// A rule and the severity it is configured with.
#[derive(Clone, Copy, Debug)]
pub struct ConfiguredRule {
    pub name: &'static str,
    pub severity: Severity,
}

/// An example of a rule, as an explanation shows it.
#[derive(Clone, Copy, Debug)]
pub struct RuleExplanationExample {
    pub label: &'static str,
    pub code: &'static str,
}

/// An option of a rule, as an explanation shows it.
#[derive(Clone, Copy, Debug)]
pub struct RuleExplanationOption {
    pub name: &'static str,
    pub description: &'static str,
}

/// The explanation of one rule: its documentation and its current configuration.
#[derive(Debug)]
pub struct RuleExplanation {
    pub name: &'static str,
    pub severity: Severity,
    pub intent: &'static str,
    pub examples: Vec<RuleExplanationExample>,
    pub options: Vec<RuleExplanationOption>,
    pub current_severity: Severity,
    pub current_options: Vec<String>,
}

/// The plain contents of an explanation.
pub struct ExplanationView {
    pub name: Seq<char>,
    pub severity: Severity,
    pub intent: Seq<char>,
    pub examples: Seq<(Seq<char>, Seq<char>)>,
    pub options: Seq<(Seq<char>, Seq<char>)>,
    pub current_severity: Severity,
    pub current_options: Seq<Seq<char>>,
}

/// The label and code of each example.
pub open spec fn explained_examples(v: Seq<RuleExplanationExample>) -> Seq<(Seq<char>, Seq<char>)> {
    v.map_values(|e: RuleExplanationExample| (e.label@, e.code@))
}

/// The name and description of each option.
pub open spec fn explained_options(v: Seq<RuleExplanationOption>) -> Seq<(Seq<char>, Seq<char>)> {
    v.map_values(|o: RuleExplanationOption| (o.name@, o.description@))
}

/// The characters of both halves of each pair.
pub open spec fn pair_views(v: Seq<(&'static str, &'static str)>) -> Seq<(Seq<char>, Seq<char>)> {
    v.map_values(|p: (&'static str, &'static str)| (p.0@, p.1@))
}

impl View for RuleExplanation {
    type V = ExplanationView;

    open spec fn view(&self) -> ExplanationView {
        ExplanationView {
            name: self.name@,
            severity: self.severity,
            intent: self.intent@,
            examples: explained_examples(self.examples@),
            options: explained_options(self.options@),
            current_severity: self.current_severity,
            current_options: string_views(self.current_options@),
        }
    }
}

/// The explanation of the documented rule `doc` under the configuration `c`.
pub open spec fn explanation_of(doc: DocView, c: ProjectConfig) -> ExplanationView {
    let s = summary_spec(doc.summarize, c);
    ExplanationView {
        name: doc.name,
        severity: s.0,
        intent: doc.intent,
        examples: doc.examples,
        options: doc.options,
        current_severity: s.0,
        current_options: s.1,
    }
}

/// The first documented rule, from index `k` on, named `name`.
pub open spec fn find_rule(docs: Seq<DocView>, name: Seq<char>, k: int) -> Option<int>
    decreases docs.len() - k,
{
    if k < 0 || k >= docs.len() {
        None
    } else if docs[k].name == name {
        Some(k)
    } else {
        find_rule(docs, name, k + 1)
    }
}

/// The names of the documented rules, separated by `, `.
pub open spec fn rule_names(docs: Seq<DocView>) -> Seq<char>
    decreases docs.len(),
{
    if docs.len() == 0 {
        Seq::empty()
    } else if docs.len() == 1 {
        docs[0].name
    } else {
        rule_names(docs.drop_last()) + ", "@ + docs.last().name
    }
}

/// `unknown rule '<name>'. Available rules: <names>`.
pub open spec fn unknown_rule_message(name: Seq<char>, docs: Seq<DocView>) -> Seq<char> {
    "unknown rule '"@ + name + "'. Available rules: "@ + rule_names(docs)
}

/// Every documented rule, in catalog order, with the severity of its current configuration.
pub fn configured_rules(config: &ProjectConfig) -> (r: Vec<ConfiguredRule>)
    ensures
        r@.len() == catalog().len(),
        forall|i: int| 0 <= i < r@.len() ==> (#[trigger] r@[i]).name@ == catalog()[i].name
            && r@[i].severity == summary_spec(catalog()[i].summarize, *config).0,
{
    let docs = all_rules();
    let n = docs.len();
    let mut rules: Vec<ConfiguredRule> = Vec::new();
    let mut i: usize = 0;
    while i < n
        invariant
            n == docs@.len(),
            doc_views(docs@) == catalog(),
            0 <= i <= n,
            rules@.len() == i,
            forall|k: int| 0 <= k < i ==> (#[trigger] rules@[k]).name@ == catalog()[k].name
                && rules@[k].severity == summary_spec(catalog()[k].summarize, *config).0,
        decreases n - i,
    {
        let doc = &docs[i];
        let summary = summarize(doc.summarize, config);
        proof {
            assert(doc_views(docs@)[i as int] == docs@[i as int]@);
        }
        rules.push(ConfiguredRule { name: doc.name, severity: summary.severity });
        i += 1;
    }
    rules
}

/// The names of the documented rules, separated by `, `.
fn available_rule_names(docs: &Vec<catalog::RuleDocumentation>) -> (r: String)
    ensures
        r@ == rule_names(doc_views(docs@)),
{
    let n = docs.len();
    let mut out = String::new();
    let mut i: usize = 0;
    while i < n
        invariant
            n == docs@.len(),
            0 <= i <= n,
            out@ == rule_names(doc_views(docs@).take(i as int)),
        decreases n - i,
    {
        if i > 0 {
            push_str(&mut out, ", ");
        }
        push_str(&mut out, docs[i].name);
        proof {
            let t = doc_views(docs@).take(i as int + 1);
            assert(t.drop_last() =~= doc_views(docs@).take(i as int));
            assert(t.last() == docs@[i as int]@);
        }
        i += 1;
    }
    proof {
        assert(doc_views(docs@).take(n as int) =~= doc_views(docs@));
    }
    out
}

/// The explanation of the rule named `rule_name` under `config`; an unknown name is refused
/// with the list of the rules there are.
pub fn explain_rule(rule_name: &str, config: &ProjectConfig) -> (r: Result<RuleExplanation, String>)
    ensures
        match find_rule(catalog(), rule_name@, 0) {
            Some(i) => match r {
                Ok(e) => e@ == explanation_of(catalog()[i], *config),
                Err(_) => false,
            },
            None => match r {
                Ok(_) => false,
                Err(m) => m@ == unknown_rule_message(rule_name@, catalog()),
            },
        },
{
    let docs = all_rules();
    let ghost dv = doc_views(docs@);
    let n = docs.len();
    let mut i: usize = 0;
    while i < n
        invariant
            n == docs@.len(),
            dv == doc_views(docs@),
            dv == catalog(),
            0 <= i <= n,
            find_rule(dv, rule_name@, 0) == find_rule(dv, rule_name@, i as int),
        decreases n - i,
    {
        proof {
            assert(dv[i as int] == docs@[i as int]@);
        }
        if crate::chars::str_equal(docs[i].name, rule_name) {
            let doc = &docs[i];
            let summary = summarize(doc.summarize, config);
            let mut examples: Vec<RuleExplanationExample> = Vec::new();
            let m = doc.examples.len();
            let mut k: usize = 0;
            while k < m
                invariant
                    m == doc.examples@.len(),
                    0 <= k <= m,
                    explained_examples(examples@)
                        == catalog::example_views(doc.examples@).take(k as int),
                decreases m - k,
            {
                let label = doc.examples[k].label;
                let code = doc.examples[k].code;
                let ghost old_v = examples@;
                examples.push(RuleExplanationExample { label, code });
                proof {
                    let ev = catalog::example_views(doc.examples@);
                    assert(ev[k as int] == (label@, code@));
                    assert(explained_examples(examples@) =~= explained_examples(old_v).push((label@, code@)));
                    assert(ev.take(k as int + 1) =~= ev.take(k as int).push(ev[k as int]));
                }
                k += 1;
            }
            let mut options: Vec<RuleExplanationOption> = Vec::new();
            let p = doc.options.len();
            let mut k: usize = 0;
            while k < p
                invariant
                    p == doc.options@.len(),
                    0 <= k <= p,
                    explained_options(options@)
                        == catalog::option_views(doc.options@).take(k as int),
                decreases p - k,
            {
                let name = doc.options[k].name;
                let description = doc.options[k].description;
                let ghost old_v = options@;
                options.push(RuleExplanationOption { name, description });
                proof {
                    let ov = catalog::option_views(doc.options@);
                    assert(ov[k as int] == (name@, description@));
                    assert(explained_options(options@) =~= explained_options(old_v).push((name@, description@)));
                    assert(ov.take(k as int + 1) =~= ov.take(k as int).push(ov[k as int]));
                }
                k += 1;
            }
            proof {
                assert(catalog::example_views(doc.examples@).take(m as int) =~= catalog::example_views(doc.examples@));
                assert(catalog::option_views(doc.options@).take(p as int) =~= catalog::option_views(doc.options@));
            }
            let explanation = RuleExplanation {
                name: doc.name,
                severity: summary.severity,
                intent: doc.intent,
                examples,
                options,
                current_severity: summary.severity,
                current_options: summary.options,
            };
            return Ok(explanation);
        }
        i += 1;
    }
    let names = available_rule_names(&docs);
    let mut message = string_of("unknown rule '");
    push_str(&mut message, rule_name);
    push_str(&mut message, "'. Available rules: ");
    push_str(&mut message, names.as_str());
    proof {
        assert(message@ =~= unknown_rule_message(rule_name@, catalog()));
    }
    Err(message)
}

/// `- <a>: <b>` on a line of its own for each pair.
pub open spec fn pair_lines(v: Seq<(Seq<char>, Seq<char>)>) -> Seq<char>
    decreases v.len(),
{
    if v.len() == 0 {
        Seq::empty()
    } else {
        pair_lines(v.drop_last()) + "- "@ + v.last().0 + ": "@ + v.last().1 + "\n"@
    }
}

/// `- <line>` on a line of its own for each line.
pub open spec fn item_lines(v: Seq<Seq<char>>) -> Seq<char>
    decreases v.len(),
{
    if v.len() == 0 {
        Seq::empty()
    } else {
        item_lines(v.drop_last()) + "- "@ + v.last() + "\n"@
    }
}

/// The text of an explanation: the name, the severity, the intent, the examples, the options
/// and the current configuration.
pub open spec fn explanation_text(e: ExplanationView) -> Seq<char> {
    e.name + "\n"@ + "severity: "@ + severity_keyword(e.severity) + "\n\n"@
        + "Intent\n"@ + e.intent + "\n\nExamples\n"@ + pair_lines(e.examples)
        + "\nConfig options\n"@ + pair_lines(e.options)
        + "\nCurrent config\n"@ + "- severity: "@ + severity_keyword(e.current_severity) + "\n"@
        + item_lines(e.current_options)
}

fn push_pair_lines(out: &mut String, v: &Vec<(&'static str, &'static str)>)
    ensures
        final(out)@ == old(out)@ + pair_lines(pair_views(v@)),
{
    let ghost start = out@;
    let ghost pv = pair_views(v@);
    let n = v.len();
    let mut i: usize = 0;
    while i < n
        invariant
            n == v@.len(),
            pv == pair_views(v@),
            0 <= i <= n,
            out@ == start + pair_lines(pv.take(i as int)),
        decreases n - i,
    {
        let (a, b) = v[i];
        push_str(out, "- ");
        push_str(out, a);
        push_str(out, ": ");
        push_str(out, b);
        push_str(out, "\n");
        proof {
            assert(pv.take(i as int + 1).drop_last() =~= pv.take(i as int));
            assert(out@ =~= start + pair_lines(pv.take(i as int + 1)));
        }
        i += 1;
    }
    proof {
        assert(pv.take(n as int) =~= pv);
    }
}

/// The explanation as text (see `explanation_text`).
pub fn render_explanation_text(explanation: &RuleExplanation) -> (r: String)
    ensures
        r@ == explanation_text(explanation@),
{
    let ghost e = explanation@;
    let mut out = String::new();
    push_str(&mut out, explanation.name);
    push_str(&mut out, "\n");
    push_str(&mut out, "severity: ");
    push_str(&mut out, explanation.severity.as_str());
    push_str(&mut out, "\n\n");
    push_str(&mut out, "Intent\n");
    push_str(&mut out, explanation.intent);
    push_str(&mut out, "\n\nExamples\n");
    let mut examples: Vec<(&'static str, &'static str)> = Vec::new();
    let m = explanation.examples.len();
    let mut k: usize = 0;
    while k < m
        invariant
            m == explanation.examples@.len(),
            0 <= k <= m,
            pair_views(examples@) == e.examples.take(k as int),
            e == explanation@,
        decreases m - k,
    {
        let label = explanation.examples[k].label;
        let code = explanation.examples[k].code;
        let ghost old_v = examples@;
        examples.push((label, code));
        proof {
            assert(e.examples[k as int] == (label@, code@));
            assert(pair_views(examples@) =~= pair_views(old_v).push((label@, code@)));
            assert(e.examples.take(k as int + 1) =~= e.examples.take(k as int).push(e.examples[k as int]));
        }
        k += 1;
    }
    proof {
        assert(e.examples.take(m as int) =~= e.examples);
    }
    push_pair_lines(&mut out, &examples);
    push_str(&mut out, "\nConfig options\n");
    let mut options: Vec<(&'static str, &'static str)> = Vec::new();
    let p = explanation.options.len();
    let mut k: usize = 0;
    while k < p
        invariant
            p == explanation.options@.len(),
            0 <= k <= p,
            pair_views(options@) == e.options.take(k as int),
            e == explanation@,
        decreases p - k,
    {
        let name = explanation.options[k].name;
        let description = explanation.options[k].description;
        let ghost old_v = options@;
        options.push((name, description));
        proof {
            assert(e.options[k as int] == (name@, description@));
            assert(pair_views(options@) =~= pair_views(old_v).push((name@, description@)));
            assert(e.options.take(k as int + 1) =~= e.options.take(k as int).push(e.options[k as int]));
        }
        k += 1;
    }
    proof {
        assert(e.options.take(p as int) =~= e.options);
    }
    push_pair_lines(&mut out, &options);
    push_str(&mut out, "\nCurrent config\n");
    push_str(&mut out, "- severity: ");
    push_str(&mut out, explanation.current_severity.as_str());
    push_str(&mut out, "\n");
    let ghost before = out@;
    let q = explanation.current_options.len();
    let mut k: usize = 0;
    while k < q
        invariant
            q == explanation.current_options@.len(),
            e == explanation@,
            0 <= k <= q,
            out@ == before + item_lines(e.current_options.take(k as int)),
        decreases q - k,
    {
        push_str(&mut out, "- ");
        push_str(&mut out, explanation.current_options[k].as_str());
        push_str(&mut out, "\n");
        proof {
            assert(e.current_options.take(k as int + 1).drop_last() =~= e.current_options.take(k as int));
            assert(out@ =~= before + item_lines(e.current_options.take(k as int + 1)));
        }
        k += 1;
    }
    proof {
        assert(e.current_options.take(q as int) =~= e.current_options);
        assert(out@ =~= explanation_text(e));
    }
    out
}

} // verus!
