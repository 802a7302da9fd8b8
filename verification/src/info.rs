//! What is shown of one formula or cask: the pieces of text, in order, each
//! with the way it is to be set off. Writing and colouring them is left to
//! the caller.

use vstd::prelude::*;
use vstd::string::StringExecFns;
use crate::aggregate::lemma_take_step;
use crate::cli::provides;
use crate::models::{Cask, Formula, InstalledCask, InstalledFormula};
use crate::names::NameSet;

verus! {

/// How a piece of text is set off.
#[derive(Clone, Copy, PartialEq, Eq, Structural, Debug)]
pub enum Style {
    Plain,
    Header,
    Tap,
    Link,
    Executable,
}

/// One piece of what is shown.
#[derive(Debug)]
pub enum Span {
    Text(Style, String),
    /// A number, to be written in decimal.
    Count(usize),
}

pub ghost enum SpanView {
    Text(Style, Seq<char>),
    Count(nat),
}

impl Span {
    pub open spec fn view(&self) -> SpanView {
        match self {
            Span::Text(style, text) => SpanView::Text(*style, text@),
            Span::Count(n) => SpanView::Count(*n as nat),
        }
    }
}

/// The views of the spans.
pub open spec fn span_views(spans: Seq<Span>) -> Seq<SpanView> {
    spans.map_values(|s: Span| s@)
}

pub open spec fn plain(text: Seq<char>) -> SpanView {
    SpanView::Text(Style::Plain, text)
}

/// The names, each after a blank.
pub open spec fn spec_listed(names: Seq<Seq<char>>, style: Style) -> Seq<SpanView>
    decreases names.len(),
{
    if names.len() == 0 {
        Seq::empty()
    } else {
        spec_listed(names.drop_last(), style) + seq![
            plain(" "@),
            SpanView::Text(style, names.last()),
        ]
    }
}

/// The names, the first as it is and each other one after a comma and a
/// blank.
pub open spec fn spec_joined(names: Seq<Seq<char>>) -> Seq<SpanView>
    decreases names.len(),
{
    if names.len() == 0 {
        Seq::empty()
    } else if names.len() == 1 {
        seq![plain(names[0])]
    } else {
        spec_joined(names.drop_last()) + seq![plain(", "@), plain(names.last())]
    }
}

/// The line that names the executables: the first five of them, and how
/// many there are besides.
pub open spec fn spec_provides(names: Seq<Seq<char>>) -> Seq<SpanView> {
    let shown = if names.len() > 5 {
        names.take(5)
    } else {
        names
    };
    if names.len() == 0 {
        Seq::empty()
    } else {
        seq![plain("\n"@), plain("Provides"@)] + spec_listed(shown, Style::Executable) + (if names.len()
            > 5 {
            seq![plain(" and "@), SpanView::Count((names.len() - 5) as nat), plain(" more"@)]
        } else {
            Seq::empty()
        }) + seq![plain("\n"@)]
    }
}

/// What is shown of a formula: its name and version, the version installed
/// if there is one, its tap, its homepage, its description, and the
/// executables it provides.
pub open spec fn spec_info_formula(
    formula: Formula,
    executables: Seq<Seq<char>>,
    installed: Option<InstalledFormula>,
) -> Seq<SpanView> {
    seq![
        SpanView::Text(Style::Header, formula.base.name@),
        plain(" "@),
        plain(formula.base.versions.stable@),
        plain(" (Cask)"@),
    ] + (match installed {
        Some(i) => seq![plain(" (installed "@), plain(i.receipt.version@), plain(")"@)],
        None => Seq::empty(),
    }) + seq![
        plain("\n"@),
        plain("From "@),
        SpanView::Text(Style::Tap, formula.base.tap@),
        plain("\n"@),
        plain("\n"@),
        SpanView::Text(Style::Link, formula.base.homepage@),
        plain("\n"@),
        plain("\n"@),
        plain(formula.base.desc@),
        plain("\n"@),
    ] + spec_provides(executables)
}

/// What is shown of a cask: its token and version, the versions installed
/// if it is installed, its tap, its homepage, and its description or a
/// word that it has none.
pub open spec fn spec_info_cask(
    cask: Cask,
    installed: Option<Seq<Seq<char>>>,
) -> Seq<SpanView> {
    seq![
        SpanView::Text(Style::Header, cask.base.token@),
        plain(" "@),
        plain(cask.base.version@),
        plain(" (Formula)"@),
    ] + (match installed {
        Some(versions) => seq![plain(" (installed "@)] + spec_joined(versions) + seq![plain(")"@)],
        None => Seq::empty(),
    }) + seq![
        plain("\n"@),
        plain("From "@),
        SpanView::Text(Style::Tap, cask.base.tap@),
        plain("\n"@),
        plain("\n"@),
        SpanView::Text(Style::Link, cask.base.homepage@),
        plain("\n"@),
        plain("\n"@),
        plain(
            match cask.base.desc {
                Some(d) => d@,
                None => "No description"@,
            },
        ),
        plain("\n"@),
    ]
}

fn push_plain(out: &mut Vec<Span>, text: &str)
    ensures
        span_views(final(out)@) == span_views(old(out)@).push(plain(text@)),
{
    out.push(Span::Text(Style::Plain, String::from_str(text)));
    assert(span_views(out@) =~= span_views(old(out)@).push(plain(text@)));
}

fn push_styled(out: &mut Vec<Span>, style: Style, text: &str)
    ensures
        span_views(final(out)@) == span_views(old(out)@).push(SpanView::Text(style, text@)),
{
    out.push(Span::Text(style, String::from_str(text)));
    assert(span_views(out@) =~= span_views(old(out)@).push(SpanView::Text(style, text@)));
}

fn push_count(out: &mut Vec<Span>, n: usize)
    ensures
        span_views(final(out)@) == span_views(old(out)@).push(SpanView::Count(n as nat)),
{
    out.push(Span::Count(n));
    assert(span_views(out@) =~= span_views(old(out)@).push(SpanView::Count(n as nat)));
}

fn push_provides(out: &mut Vec<Span>, executables: &NameSet)
    requires
        executables.wf(),
    ensures
        span_views(final(out)@) == span_views(old(out)@) + spec_provides(executables.name_seq()),
{
    let ghost head = span_views(out@);
    let ghost names = executables.name_seq();
    if executables.len() == 0 {
        assert(head + spec_provides(names) =~= head);
        return ;
    }
    let (shown, more) = provides(executables);
    let ghost listed = crate::brew::strings(shown@);
    proof {
        assert(names.take(names.len() as int) =~= names);
        assert(listed.len() == shown@.len());
        assert(listed == if names.len() > 5 {
            names.take(5)
        } else {
            names
        });
        assert(more > 0 <==> names.len() > 5);
    }
    push_plain(out, "\n");
    push_plain(out, "Provides");
    let ghost start = span_views(out@);
    let mut i: usize = 0;
    assert(start + spec_listed(listed.take(0), Style::Executable) =~= start);
    while i < shown.len()
        invariant
            i <= shown@.len(),
            listed == crate::brew::strings(shown@),
            span_views(out@) == start + spec_listed(listed.take(i as int), Style::Executable),
        decreases shown@.len() - i,
    {
        let ghost before = span_views(out@);
        push_plain(out, " ");
        push_styled(out, Style::Executable, shown[i].as_str());
        proof {
            lemma_take_step(listed, i as int);
            assert(span_views(out@) =~= start + spec_listed(
                listed.take(i as int + 1),
                Style::Executable,
            ));
        }
        i += 1;
    }
    assert(listed.take(i as int) =~= listed);
    let ghost body = span_views(out@);
    assert(body =~= head + (seq![plain("\n"@), plain("Provides"@)] + spec_listed(
        listed,
        Style::Executable,
    )));
    if more > 0 {
        push_plain(out, " and ");
        push_count(out, more);
        push_plain(out, " more");
        assert(span_views(out@) =~= body + seq![
            plain(" and "@),
            SpanView::Count((names.len() - 5) as nat),
            plain(" more"@),
        ]);
    }
    push_plain(out, "\n");
    assert(span_views(out@) =~= head + spec_provides(names));
}

/// What is shown of a formula, and of what is installed of it.
pub fn info_formula(formula: &Formula, installed: Option<&InstalledFormula>) -> (r: Vec<Span>)
    requires
        formula.wf(),
    ensures
        span_views(r@) == spec_info_formula(
            *formula,
            formula.executables.name_seq(),
            match installed {
                Some(i) => Some(*i),
                None => None,
            },
        ),
{
    let mut out: Vec<Span> = Vec::new();
    assert(span_views(out@) =~= Seq::<SpanView>::empty());
    push_styled(&mut out, Style::Header, formula.base.name.as_str());
    push_plain(&mut out, " ");
    push_plain(&mut out, formula.base.versions.stable.as_str());
    push_plain(&mut out, " (Cask)");
    match installed {
        Some(i) => {
            push_plain(&mut out, " (installed ");
            push_plain(&mut out, i.receipt.version.as_str());
            push_plain(&mut out, ")");
        },
        None => {},
    }
    push_plain(&mut out, "\n");
    push_plain(&mut out, "From ");
    push_styled(&mut out, Style::Tap, formula.base.tap.as_str());
    push_plain(&mut out, "\n");
    push_plain(&mut out, "\n");
    push_styled(&mut out, Style::Link, formula.base.homepage.as_str());
    push_plain(&mut out, "\n");
    push_plain(&mut out, "\n");
    push_plain(&mut out, formula.base.desc.as_str());
    push_plain(&mut out, "\n");
    let ghost head = span_views(out@);
    push_provides(&mut out, &formula.executables);
    assert(span_views(out@) =~= spec_info_formula(
        *formula,
        formula.executables.name_seq(),
        match installed {
            Some(i) => Some(*i),
            None => None,
        },
    ));
    out
}

fn push_joined(out: &mut Vec<Span>, names: &NameSet)
    requires
        names.wf(),
    ensures
        span_views(final(out)@) == span_views(old(out)@) + spec_joined(names.name_seq()),
{
    let ghost head = span_views(out@);
    let ghost all = names.name_seq();
    let n = names.len();
    let mut i: usize = 0;
    assert(head + spec_joined(all.take(0)) =~= head);
    while i < n
        invariant
            i <= n,
            n == all.len(),
            all == names.name_seq(),
            names.wf(),
            span_views(out@) == head + spec_joined(all.take(i as int)),
        decreases n - i,
    {
        if i > 0 {
            push_plain(out, ", ");
        }
        push_plain(out, names.get(i).as_str());
        proof {
            lemma_take_step(all, i as int);
            assert(all.take(i as int + 1).len() == i + 1);
            assert(span_views(out@) =~= head + spec_joined(all.take(i as int + 1)));
        }
        i += 1;
    }
    assert(all.take(i as int) =~= all);
}

/// What is shown of a cask, and of what is installed of it.
pub fn info_cask(cask: &Cask, installed: Option<&InstalledCask>) -> (r: Vec<Span>)
    requires
        installed matches Some(i) ==> i.wf(),
    ensures
        span_views(r@) == spec_info_cask(
            *cask,
            match installed {
                Some(i) => Some(i.versions.name_seq()),
                None => None,
            },
        ),
{
    let mut out: Vec<Span> = Vec::new();
    assert(span_views(out@) =~= Seq::<SpanView>::empty());
    push_styled(&mut out, Style::Header, cask.base.token.as_str());
    push_plain(&mut out, " ");
    push_plain(&mut out, cask.base.version.as_str());
    push_plain(&mut out, " (Formula)");
    match installed {
        Some(i) => {
            push_plain(&mut out, " (installed ");
            push_joined(&mut out, &i.versions);
            push_plain(&mut out, ")");
        },
        None => {},
    }
    push_plain(&mut out, "\n");
    push_plain(&mut out, "From ");
    push_styled(&mut out, Style::Tap, cask.base.tap.as_str());
    push_plain(&mut out, "\n");
    push_plain(&mut out, "\n");
    push_styled(&mut out, Style::Link, cask.base.homepage.as_str());
    push_plain(&mut out, "\n");
    push_plain(&mut out, "\n");
    match &cask.base.desc {
        Some(d) => push_plain(&mut out, d.as_str()),
        None => push_plain(&mut out, "No description"),
    }
    push_plain(&mut out, "\n");
    assert(span_views(out@) =~= spec_info_cask(
        *cask,
        match installed {
            Some(i) => Some(i.versions.name_seq()),
            None => None,
        },
    ));
    out
}

} // verus!
