//! The cross-product build: every selected template rendered against
//! every palette, each with its output path.

use vstd::prelude::*;

use crate::color::MalformedColor;
use crate::render::{malformed_slot, render_template, rendered};
use crate::scheme::{opt_view, Scheme, SchemeView};
use crate::template::{templates_view, Template, TemplateView};
use crate::text::{chars_equal, chars_of, concat_chars, string_of};

verus! {

/// One (template, palette) pair of a build: where it goes and what it
/// renders to.
#[derive(Debug)]
pub struct Output {
    /// Position of the template in the build's templates.
    pub template: usize,
    /// Position of the palette in the build's palettes.
    pub scheme: usize,
    /// Directory to create before writing.
    pub dir: String,
    /// File to write.
    pub path: String,
    /// The rendered text, or the color that kept it from rendering.
    pub contents: Result<String, MalformedColor>,
}

/// An output as mathematical values; `contents` is `None` where the
/// render failed.
pub struct OutputView {
    pub template: int,
    pub scheme: int,
    pub dir: Seq<char>,
    pub path: Seq<char>,
    pub contents: Option<Seq<char>>,
}

impl View for Output {
    type V = OutputView;

    open spec fn view(&self) -> OutputView {
        OutputView {
            template: self.template as int,
            scheme: self.scheme as int,
            dir: self.dir@,
            path: self.path@,
            contents: match self.contents {
                Ok(c) => Some(c@),
                Err(_) => None,
            },
        }
    }
}

pub open spec fn outputs_view(v: Seq<Output>) -> Seq<OutputView> {
    v.map_values(|o: Output| o@)
}

pub open spec fn schemes_view(v: Seq<Scheme>) -> Seq<SchemeView> {
    v.map_values(|s: Scheme| s@)
}

/// Whether the template-name filter keeps `t`.
pub open spec fn selected(t: TemplateView, filter: Option<Seq<char>>) -> bool {
    match filter {
        Some(n) => t.name == n,
        None => true,
    }
}

/// Directory of the renders of `t`: the root itself when a fixed file
/// name is given, else the root joined with the template's output path.
pub open spec fn output_dir(root: Seq<char>, file: Option<Seq<char>>, t: TemplateView) -> Seq<char> {
    match file {
        Some(_) => root,
        None => root + "/"@ + t.output_path,
    }
}

/// File name of the render of `t` against `s`: the fixed name when one is
/// given, else `base16-<identifier><extension>`.
pub open spec fn output_name(file: Option<Seq<char>>, t: TemplateView, s: SchemeView) -> Seq<char> {
    match file {
        Some(f) => f,
        None => "base16-"@ + s.slug + t.extension,
    }
}

/// What rendering `t` against `s` gives: `None` where a slot is malformed.
pub open spec fn render_outcome(t: TemplateView, s: SchemeView) -> Option<Seq<char>> {
    if forall|i: int| !malformed_slot(s, i) {
        Some(rendered(t.contents, s))
    } else {
        None
    }
}

/// The output of template `ti` against palette `si`.
pub open spec fn planned(
    ts: Seq<TemplateView>,
    ss: Seq<SchemeView>,
    root: Seq<char>,
    file: Option<Seq<char>>,
    ti: int,
    si: int,
) -> OutputView {
    OutputView {
        template: ti,
        scheme: si,
        dir: output_dir(root, file, ts[ti]),
        path: output_dir(root, file, ts[ti]) + "/"@ + output_name(file, ts[ti], ss[si]),
        contents: render_outcome(ts[ti], ss[si]),
    }
}

/// The outputs of the first `k` templates, each against every palette in
/// order; templates that the filter drops give none.
pub open spec fn build_plan_upto(
    ts: Seq<TemplateView>,
    ss: Seq<SchemeView>,
    filter: Option<Seq<char>>,
    root: Seq<char>,
    file: Option<Seq<char>>,
    k: int,
) -> Seq<OutputView>
    decreases k,
{
    if k <= 0 {
        Seq::empty()
    } else {
        build_plan_upto(ts, ss, filter, root, file, k - 1) + if selected(ts[k - 1], filter) {
            Seq::new(ss.len(), |j: int| planned(ts, ss, root, file, k - 1, j))
        } else {
            Seq::empty()
        }
    }
}

/// The outputs of a build, in the order they are written.
pub open spec fn build_plan(
    ts: Seq<TemplateView>,
    ss: Seq<SchemeView>,
    filter: Option<Seq<char>>,
    root: Seq<char>,
    file: Option<Seq<char>>,
) -> Seq<OutputView> {
    build_plan_upto(ts, ss, filter, root, file, ts.len() as int)
}

/// Renders every template that `template_name` selects (all when it is
/// `None`) against every palette, templates outermost. Each output goes
/// to `<output_root>/<output path>/base16-<identifier><extension>`, or to
/// `<output_root>/<output_file>` when a fixed file name is given. A pair
/// that fails to render is reported in its own output; the others are
/// unaffected.
pub fn build(
    templates: &Vec<Template>,
    schemes: &Vec<Scheme>,
    template_name: &Option<String>,
    output_root: &str,
    output_file: &Option<String>,
) -> (r: Vec<Output>)
    ensures
        outputs_view(r@) == build_plan(
            templates_view(templates@),
            schemes_view(schemes@),
            opt_view(*template_name),
            output_root@,
            opt_view(*output_file),
        ),
{
    let ghost ts = templates_view(templates@);
    let ghost ss = schemes_view(schemes@);
    let ghost filter = opt_view(*template_name);
    let ghost file = opt_view(*output_file);
    let root = chars_of(output_root);
    let slash = chars_of("/");
    let filter_chars = match template_name {
        Some(n) => Some(chars_of(n.as_str())),
        None => None,
    };
    let mut out: Vec<Output> = Vec::new();
    let mut ti: usize = 0;
    assert(outputs_view(out@) =~= build_plan_upto(ts, ss, filter, output_root@, file, 0));
    while ti < templates.len()
        invariant
            ti <= templates.len(),
            ts == templates_view(templates@),
            ss == schemes_view(schemes@),
            filter == opt_view(*template_name),
            file == opt_view(*output_file),
            root@ == output_root@,
            slash@ == "/"@,
            match filter_chars {
                Some(f) => filter == Some(f@),
                None => filter is None,
            },
            outputs_view(out@) == build_plan_upto(ts, ss, filter, output_root@, file, ti as int),
        decreases templates.len() - ti,
    {
        let t = &templates[ti];
        let keep = match &filter_chars {
            Some(f) => chars_equal(&chars_of(t.name.as_str()), f),
            None => true,
        };
        let ghost before = out@;
        if keep {
            let dir = match output_file {
                Some(_) => root.clone(),
                None => concat_chars(&concat_chars(&root, &slash), &chars_of(t.output_path.as_str())),
            };
            assert(dir@ == output_dir(output_root@, file, ts[ti as int]));
            let mut si: usize = 0;
            while si < schemes.len()
                invariant
                    si <= schemes.len(),
                    ti < templates.len(),
                    t == templates[ti as int],
                    ts == templates_view(templates@),
                    ss == schemes_view(schemes@),
                    file == opt_view(*output_file),
                    slash@ == "/"@,
                    dir@ == output_dir(output_root@, file, ts[ti as int]),
                    outputs_view(out@) == outputs_view(before) + Seq::new(
                        si as nat,
                        |j: int| planned(ts, ss, output_root@, file, ti as int, j),
                    ),
                decreases schemes.len() - si,
            {
                let s = &schemes[si];
                let name = match output_file {
                    Some(f) => chars_of(f.as_str()),
                    None => concat_chars(
                        &concat_chars(&chars_of("base16-"), &chars_of(s.slug.as_str())),
                        &chars_of(t.extension.as_str()),
                    ),
                };
                assert(name@ == output_name(file, ts[ti as int], ss[si as int]));
                let path = concat_chars(&concat_chars(&dir, &slash), &name);
                let contents = render_template(t.contents.as_str(), s);
                let o = Output {
                    template: ti,
                    scheme: si,
                    dir: string_of(&dir),
                    path: string_of(&path),
                    contents,
                };
                assert(o@ == planned(ts, ss, output_root@, file, ti as int, si as int));
                let ghost mid = out@;
                out.push(o);
                assert(outputs_view(out@) =~= outputs_view(mid).push(o@));
                si = si + 1;
                assert(outputs_view(out@) =~= outputs_view(before) + Seq::new(
                    si as nat,
                    |j: int| planned(ts, ss, output_root@, file, ti as int, j),
                ));
            }
            assert(selected(ts[ti as int], filter));
        } else {
            assert(!selected(ts[ti as int], filter));
            assert(outputs_view(out@) =~= outputs_view(before) + Seq::empty());
        }
        ti = ti + 1;
    }
    out
}

proof fn lemma_plan_entries(
    ts: Seq<TemplateView>,
    ss: Seq<SchemeView>,
    filter: Option<Seq<char>>,
    root: Seq<char>,
    file: Option<Seq<char>>,
    k: int,
)
    requires
        0 <= k <= ts.len(),
    ensures
        forall|m: int|
            0 <= m < build_plan_upto(ts, ss, filter, root, file, k).len() ==> {
                let o = #[trigger] build_plan_upto(ts, ss, filter, root, file, k)[m];
                &&& 0 <= o.template < k
                &&& 0 <= o.scheme < ss.len()
                &&& o == planned(ts, ss, root, file, o.template, o.scheme)
            },
    decreases k,
{
    if k > 0 {
        lemma_plan_entries(ts, ss, filter, root, file, k - 1);
    }
}

/// Each output of a build stands or falls with its own palette: it fails
/// exactly where that palette has a malformed color, and otherwise holds
/// its template rendered against that palette, whatever the other
/// palettes hold.
pub proof fn lemma_failures_isolated(
    ts: Seq<TemplateView>,
    ss: Seq<SchemeView>,
    filter: Option<Seq<char>>,
    root: Seq<char>,
    file: Option<Seq<char>>,
    m: int,
)
    requires
        0 <= m < build_plan(ts, ss, filter, root, file).len(),
    ensures
        ({
            let o = build_plan(ts, ss, filter, root, file)[m];
            &&& 0 <= o.template < ts.len()
            &&& 0 <= o.scheme < ss.len()
            &&& (o.contents is None <==> exists|i: int| malformed_slot(ss[o.scheme], i))
            &&& (o.contents is Some ==> o.contents == Some(
                rendered(ts[o.template].contents, ss[o.scheme]),
            ))
        }),
{
    lemma_plan_entries(ts, ss, filter, root, file, ts.len() as int);
}

proof fn lemma_infix_differs(pre: Seq<char>, x: Seq<char>, y: Seq<char>, post: Seq<char>)
    requires
        x != y,
    ensures
        pre + x + post != pre + y + post,
{
    if x.len() == y.len() && pre + x + post == pre + y + post {
        let lo = pre.len() as int;
        let hi = lo + x.len();
        assert((pre + x + post).subrange(lo, hi) =~= x);
        assert((pre + y + post).subrange(lo, hi) =~= y);
    }
    if x.len() != y.len() {
        assert((pre + x + post).len() != (pre + y + post).len());
    }
}

/// One template against two palettes with distinct identifiers gives
/// exactly two files, `<root>/<output path>/base16-<id><extension>` for
/// each palette, each holding that palette's render.
pub proof fn lemma_two_palettes(t: TemplateView, s1: SchemeView, s2: SchemeView, root: Seq<char>)
    requires
        s1.slug != s2.slug,
    ensures
        ({
            let plan = build_plan(seq![t], seq![s1, s2], None, root, None);
            let dir = root + "/"@ + t.output_path;
            &&& plan.len() == 2
            &&& plan[0].path == dir + "/"@ + ("base16-"@ + s1.slug + t.extension)
            &&& plan[1].path == dir + "/"@ + ("base16-"@ + s2.slug + t.extension)
            &&& plan[0].path != plan[1].path
            &&& plan[0].contents == render_outcome(t, s1)
            &&& plan[1].contents == render_outcome(t, s2)
        }),
{
    let ts = seq![t];
    let ss = seq![s1, s2];
    let plan = build_plan(ts, ss, None, root, None);
    assert(build_plan_upto(ts, ss, None, root, None, 0) =~= Seq::empty());
    assert(plan =~= Seq::new(2, |j: int| planned(ts, ss, root, None, 0, j)));
    let pre = root + "/"@ + t.output_path + "/"@ + "base16-"@;
    lemma_infix_differs(pre, s1.slug, s2.slug, t.extension);
    assert(plan[0].path =~= pre + s1.slug + t.extension);
    assert(plan[1].path =~= pre + s2.slug + t.extension);
}

/// The files after writing, in order, each output that rendered, over the
/// files `fs`; a later write to a path replaces an earlier one.
pub open spec fn write_outputs(fs: Map<Seq<char>, Seq<char>>, plan: Seq<OutputView>) -> Map<
    Seq<char>,
    Seq<char>,
>
    decreases plan.len(),
{
    if plan.len() == 0 {
        fs
    } else {
        let prev = write_outputs(fs, plan.drop_last());
        match plan.last().contents {
            Some(c) => prev.insert(plan.last().path, c),
            None => prev,
        }
    }
}

proof fn lemma_write_as_union(fs: Map<Seq<char>, Seq<char>>, plan: Seq<OutputView>)
    ensures
        write_outputs(fs, plan) == fs.union_prefer_right(write_outputs(Map::empty(), plan)),
    decreases plan.len(),
{
    if plan.len() == 0 {
        assert(fs =~= fs.union_prefer_right(Map::empty()));
    } else {
        lemma_write_as_union(fs, plan.drop_last());
        lemma_write_as_union(Map::empty(), plan.drop_last());
        let w = write_outputs(Map::empty(), plan.drop_last());
        match plan.last().contents {
            Some(c) => {
                assert(fs.union_prefer_right(w).insert(plan.last().path, c) =~= fs.union_prefer_right(
                    w.insert(plan.last().path, c),
                ));
            },
            None => {},
        }
    }
}

/// Running a build again over its own output reproduces the same files:
/// the outputs are a function of the inputs, and writing them twice
/// leaves what writing them once left.
pub proof fn lemma_rebuild_identical(
    ts: Seq<TemplateView>,
    ss: Seq<SchemeView>,
    filter: Option<Seq<char>>,
    root: Seq<char>,
    file: Option<Seq<char>>,
    fs: Map<Seq<char>, Seq<char>>,
)
    ensures
        ({
            let plan = build_plan(ts, ss, filter, root, file);
            write_outputs(write_outputs(fs, plan), plan) == write_outputs(fs, plan)
        }),
{
    let plan = build_plan(ts, ss, filter, root, file);
    let w = write_outputs(Map::empty(), plan);
    lemma_write_as_union(fs, plan);
    lemma_write_as_union(write_outputs(fs, plan), plan);
    assert(fs.union_prefer_right(w).union_prefer_right(w) =~= fs.union_prefer_right(w));
}

} // verus!
