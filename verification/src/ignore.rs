//! What ignore directives did during a run: the findings they suppressed and the directives
//! that no longer suppress anything.

use vstd::prelude::*;
use crate::chars::{push_str};

verus! {

/// The reach of an ignore directive.
#[derive(Clone, Copy, Debug, PartialEq, Eq, Structural)]
pub enum DirectiveKind {
    NextLine,
    Line,
    File,
}

/// The keyword of a directive kind.
pub open spec fn directive_keyword(k: DirectiveKind) -> Seq<char> {
    match k {
        DirectiveKind::NextLine => "ignore-next-line"@,
        DirectiveKind::Line => "ignore-line"@,
        DirectiveKind::File => "ignore-file"@,
    }
}

impl DirectiveKind {
    /// The keyword of this kind.
    pub fn as_str(&self) -> (r: &'static str)
        ensures
            r@ == directive_keyword(*self),
    {
        match self {
            DirectiveKind::NextLine => "ignore-next-line",
            DirectiveKind::Line => "ignore-line",
            DirectiveKind::File => "ignore-file",
        }
    }
}

/// A directive that suppressed nothing.
#[derive(Debug)]
pub struct StaleDirective {
    pub kind: DirectiveKind,
    pub line: usize,
    pub rules: Vec<String>,
}

/// `items` joined by `sep`.
pub open spec fn join(items: Seq<Seq<char>>, sep: Seq<char>) -> Seq<char>
    decreases items.len(),
{
    if items.len() == 0 {
        Seq::empty()
    } else if items.len() == 1 {
        items[0]
    } else {
        join(items.drop_last(), sep) + sep + items.last()
    }
}

/// The characters of each string.
pub open spec fn strings_view(v: Seq<String>) -> Seq<Seq<char>> {
    v.map_values(|s: String| s@)
}

/// A directive as text: its keyword, then the rules it names, separated by `, `.
pub open spec fn directive_text(d: StaleDirective) -> Seq<char> {
    if d.rules@.len() == 0 {
        directive_keyword(d.kind)
    } else {
        directive_keyword(d.kind) + " "@ + join(strings_view(d.rules@), ", "@)
    }
}

/// Appends `items` joined by `sep`.
pub fn push_joined(out: &mut String, items: &Vec<String>, sep: &str)
    ensures
        final(out)@ == old(out)@ + join(strings_view(items@), sep@),
{
    let ghost start = out@;
    let n = items.len();
    let mut i: usize = 0;
    while i < n
        invariant
            n == items@.len(),
            0 <= i <= n,
            out@ == start + join(strings_view(items@).take(i as int), sep@),
        decreases n - i,
    {
        proof {
            assert(strings_view(items@).take(i as int + 1).drop_last() =~= strings_view(items@).take(i as int));
        }
        if i > 0 {
            push_str(out, sep);
        }
        push_str(out, items[i].as_str());
        proof {
            if i == 0 {
                assert(strings_view(items@).take(1) =~= seq![items@[0]@]);
            }
            assert(out@ =~= start + join(strings_view(items@).take(i as int + 1), sep@));
        }
        i += 1;
    }
    proof {
        assert(strings_view(items@).take(n as int) =~= strings_view(items@));
    }
}

impl StaleDirective {
    /// This directive as text.
    pub fn describe(&self) -> (r: String)
        ensures
            r@ == directive_text(*self),
    {
        let mut out = String::new();
        push_str(&mut out, self.kind.as_str());
        if self.rules.len() > 0 {
            push_str(&mut out, " ");
            push_joined(&mut out, &self.rules, ", ");
        }
        proof {
            assert(out@ =~= directive_text(*self));
        }
        out
    }
}

/// The suppressions of one file.
#[derive(Debug)]
pub struct FileSuppressions {
    pub file: String,
    pub suppressed_count: usize,
    pub stale_directives: Vec<StaleDirective>,
}

/// The suppressions of a run, file by file.
#[derive(Debug)]
pub struct SuppressionReport {
    pub files: Vec<FileSuppressions>,
}

/// The number of suppressed findings over `files`.
pub open spec fn suppressed_total(files: Seq<FileSuppressions>) -> nat
    decreases files.len(),
{
    if files.len() == 0 {
        0
    } else {
        suppressed_total(files.drop_last()) + files.last().suppressed_count as nat
    }
}

/// The number of stale directives over `files`.
pub open spec fn stale_total(files: Seq<FileSuppressions>) -> nat
    decreases files.len(),
{
    if files.len() == 0 {
        0
    } else {
        stale_total(files.drop_last()) + files.last().stale_directives@.len()
    }
}

pub proof fn lemma_totals_monotone(files: Seq<FileSuppressions>, i: int)
    requires
        0 <= i <= files.len(),
    ensures
        suppressed_total(files.take(i)) <= suppressed_total(files),
        stale_total(files.take(i)) <= stale_total(files),
    decreases files.len() - i,
{
    if i < files.len() {
        lemma_totals_monotone(files, i + 1);
        assert(files.take(i + 1).drop_last() =~= files.take(i));
    } else {
        assert(files.take(i) =~= files);
    }
}

impl SuppressionReport {
    /// The number of suppressed findings.
    pub fn total_suppressed(&self) -> (r: usize)
        requires
            suppressed_total(self.files@) <= usize::MAX,
        ensures
            r == suppressed_total(self.files@),
    {
        let n = self.files.len();
        let mut total: usize = 0;
        let mut i: usize = 0;
        while i < n
            invariant
                n == self.files@.len(),
                0 <= i <= n,
                total == suppressed_total(self.files@.take(i as int)),
                suppressed_total(self.files@) <= usize::MAX,
            decreases n - i,
        {
            proof {
                assert(self.files@.take(i as int + 1).drop_last() =~= self.files@.take(i as int));
                lemma_totals_monotone(self.files@, i as int + 1);
            }
            total = total + self.files[i].suppressed_count;
            i += 1;
        }
        proof {
            assert(self.files@.take(n as int) =~= self.files@);
        }
        total
    }

    /// The number of stale directives.
    pub fn total_stale(&self) -> (r: usize)
        requires
            stale_total(self.files@) <= usize::MAX,
        ensures
            r == stale_total(self.files@),
    {
        let n = self.files.len();
        let mut total: usize = 0;
        let mut i: usize = 0;
        while i < n
            invariant
                n == self.files@.len(),
                0 <= i <= n,
                total == stale_total(self.files@.take(i as int)),
                stale_total(self.files@) <= usize::MAX,
            decreases n - i,
        {
            proof {
                assert(self.files@.take(i as int + 1).drop_last() =~= self.files@.take(i as int));
                lemma_totals_monotone(self.files@, i as int + 1);
            }
            total = total + self.files[i].stale_directives.len();
            i += 1;
        }
        proof {
            assert(self.files@.take(n as int) =~= self.files@);
        }
        total
    }

    /// Whether nothing was suppressed and no directive is stale.
    pub fn is_empty(&self) -> (r: bool)
        requires
            suppressed_total(self.files@) <= usize::MAX,
            stale_total(self.files@) <= usize::MAX,
        ensures
            r == (suppressed_total(self.files@) == 0 && stale_total(self.files@) == 0),
    {
        self.total_suppressed() == 0 && self.total_stale() == 0
    }
}

} // verus!
