//! How a theme is painted onto the thumbnail picture of the theme chooser:
//! the strokes of the picture labelled `fg` take the theme's foreground
//! color, and those labelled `palette` take a color picked at random from the
//! theme's palette, past its first seven entries. The picture is read and
//! written with `elementtree`.
use vstd::prelude::*;
use rand::Rng;
use elementtree::Element;

verus! {

/// A node of the thumbnail picture, as far as painting reads it: its `label`
/// attribute and its children, in document order.
#[derive(Debug)]
pub struct SvgNode {
    pub label: Option<String>,
    pub children: Vec<SvgNode>,
}

/// The label of the strokes painted with a palette color.
pub const PALETTE_LABEL: &'static str = "palette";

/// The label of the strokes painted with the foreground color.
pub const FOREGROUND_LABEL: &'static str = "fg";

/// The palette entries that may be picked start at this index.
pub const FIRST_PICKABLE: usize = 7;

/// The labels of `nodes` and of all their descendants, in document order
/// (each node before its children, the children before the next sibling).
pub open spec fn preorder(nodes: Seq<SvgNode>) -> Seq<Option<Seq<char>>>
    decreases nodes,
{
    if nodes.len() == 0 {
        Seq::empty()
    } else {
        seq![nodes[0].label.deep_view()] + preorder(nodes[0].children@) + preorder(nodes.drop_first())
    }
}

/// The stroke style that paints a stroke with `color`.
pub open spec fn stroke_style(color: Seq<char>) -> Seq<char> {
    "stroke:"@ + color + ";stroke-width:3;stroke-linecap:round;"@
}

/// Whether a node with `label` is painted with a palette color: it is
/// labelled so and the theme has a palette.
pub open spec fn takes_palette_color(label: Option<Seq<char>>, palette: Option<Seq<Seq<char>>>) -> bool {
    label == Some(PALETTE_LABEL@) && palette is Some
}

/// The style that a node with `label` gets when `pick` is the palette entry
/// drawn for it: the foreground color for `fg` nodes, the picked palette
/// color for `palette` nodes, and none (the node keeps its style) when the
/// theme lacks that color or the node has another label.
pub open spec fn node_style_spec(
    label: Option<Seq<char>>,
    palette: Option<Seq<Seq<char>>>,
    foreground: Option<Seq<char>>,
    pick: int,
) -> Option<Seq<char>> {
    if label == Some(FOREGROUND_LABEL@) {
        match foreground {
            Some(c) => Some(stroke_style(c)),
            None => None,
        }
    } else if takes_palette_color(label, palette) {
        Some(stroke_style(palette->0[pick]))
    } else {
        None
    }
}

fn stroke_style_of(color: &str) -> (r: String)
    ensures
        r@ == stroke_style(color@),
{
    let mut s = "stroke:".to_owned();
    s.append(color);
    s.append(";stroke-width:3;stroke-linecap:round;");
    s
}

fn is_label(label: &Option<String>, expected: &str) -> (r: bool)
    ensures
        r == (label.deep_view() == Some(expected@)),
{
    match label {
        Some(l) => {
            let e: String = expected.to_owned();
            l.eq(&e)
        },
        None => false,
    }
}

/// The style of one node, given the palette entry `pick` drawn for it.
pub fn node_style(label: &Option<String>, palette: &Option<Vec<String>>, foreground: &Option<String>, pick: usize) -> (r:
    Option<String>)
    requires
        takes_palette_color(label.deep_view(), palette.deep_view()) ==> pick < palette->0.len(),
    ensures
        r.deep_view() == node_style_spec(label.deep_view(), palette.deep_view(), foreground.deep_view(), pick as int),
{
    if is_label(label, FOREGROUND_LABEL) {
        match foreground {
            Some(c) => Some(stroke_style_of(c.as_str())),
            None => None,
        }
    } else if is_label(label, PALETTE_LABEL) {
        match palette {
            Some(p) => Some(stroke_style_of(p[pick].as_str())),
            None => None,
        }
    } else {
        None
    }
}

/// `Rng::gen_range(low..high)` on the thread's random number generator
/// (`rand::thread_rng`): a number drawn at random from `low` up to, but
/// not including, `high`. It panics on an empty range, which `requires`
/// leaves out. Which number is drawn is left open.
#[verifier::external_body]
fn random_index(low: usize, high: usize) -> (r: usize)
    requires
        low < high,
    ensures
        low <= r < high,
{
    rand::thread_rng().gen_range(low..high)
}

/// Whether `style` is one that a node with `label` may get, whatever palette
/// entry is drawn for it: for a node painted from the palette, the color of
/// some entry past the first seven; for any other node, the one style that
/// `node_style_spec` gives it.
pub open spec fn style_fits(
    label: Option<Seq<char>>,
    palette: Option<Seq<Seq<char>>>,
    foreground: Option<Seq<char>>,
    style: Option<Seq<char>>,
) -> bool {
    if takes_palette_color(label, palette) {
        exists|k: int|
            FIRST_PICKABLE <= k < palette->0.len() && style == #[trigger] node_style_spec(label, palette, foreground, k)
    } else {
        style == node_style_spec(label, palette, foreground, 0)
    }
}

/// Whether `styles` holds, position by position, a style that fits the
/// node with the label at the same position of `labels`.
pub open spec fn styles_fit(
    labels: Seq<Option<Seq<char>>>,
    styles: Seq<Option<Seq<char>>>,
    palette: Option<Seq<Seq<char>>>,
    foreground: Option<Seq<char>>,
) -> bool {
    &&& labels.len() == styles.len()
    &&& forall|i: int| 0 <= i < labels.len() ==> style_fits(labels[i], palette, foreground, #[trigger] styles[i])
}

/// Whether a palette entry can be drawn for every node painted from the
/// palette: the palette has more than seven entries, or no node asks for one.
pub open spec fn picks_possible(labels: Seq<Option<Seq<char>>>, palette: Option<Seq<Seq<char>>>) -> bool {
    forall|i: int|
        0 <= i < labels.len() && takes_palette_color(#[trigger] labels[i], palette) ==> palette->0.len()
            > FIRST_PICKABLE
}

/// The document order of two runs of sibling nodes is the order of the
/// first followed by that of the second.
pub proof fn lemma_preorder_append(a: Seq<SvgNode>, b: Seq<SvgNode>)
    ensures
        preorder(a + b) == preorder(a) + preorder(b),
    decreases a.len(),
{
    if a.len() == 0 {
        assert(a + b == b);
    } else {
        assert((a + b)[0] == a[0]);
        assert((a + b).drop_first() == a.drop_first() + b);
        lemma_preorder_append(a.drop_first(), b);
    }
}

proof fn lemma_styles_fit_concat(
    l1: Seq<Option<Seq<char>>>,
    s1: Seq<Option<Seq<char>>>,
    l2: Seq<Option<Seq<char>>>,
    s2: Seq<Option<Seq<char>>>,
    palette: Option<Seq<Seq<char>>>,
    foreground: Option<Seq<char>>,
)
    requires
        styles_fit(l1, s1, palette, foreground),
        styles_fit(l2, s2, palette, foreground),
    ensures
        styles_fit(l1 + l2, s1 + s2, palette, foreground),
{
    assert forall|i: int| 0 <= i < (l1 + l2).len() implies style_fits(
        (l1 + l2)[i],
        palette,
        foreground,
        #[trigger] (s1 + s2)[i],
    ) by {
        if i < l1.len() {
            assert(style_fits(l1[i], palette, foreground, s1[i]));
        } else {
            assert(style_fits(l2[i - l1.len()], palette, foreground, s2[i - l1.len()]));
        }
    }
}

/// The styles that painting a theme gives `node` and all its descendants,
/// in document order (`None` where a node keeps its style): a palette entry
/// is drawn at random for each node painted from the palette.
pub fn process_node(node: &SvgNode, palette: &Option<Vec<String>>, foreground: &Option<String>) -> (r: Vec<Option<String>>)
    requires
        picks_possible(preorder(seq![*node]), palette.deep_view()),
    ensures
        styles_fit(preorder(seq![*node]), r.deep_view(), palette.deep_view(), foreground.deep_view()),
    decreases node,
{
    let ghost pv = palette.deep_view();
    let ghost fv = foreground.deep_view();
    let ghost lv = node.label.deep_view();
    let ghost cs = node.children@;
    proof {
        assert(seq![*node].drop_first() == Seq::<SvgNode>::empty());
        assert(preorder(Seq::<SvgNode>::empty()) == Seq::<Option<Seq<char>>>::empty());
        assert(preorder(seq![*node]) == seq![lv] + preorder(cs) + preorder(Seq::<SvgNode>::empty()));
        assert(seq![lv] + preorder(cs) + Seq::<Option<Seq<char>>>::empty() =~= seq![lv] + preorder(cs));
        assert(preorder(seq![*node])[0] == lv);
    }
    let pick: usize = if is_label(&node.label, PALETTE_LABEL) {
        match palette {
            Some(p) => random_index(FIRST_PICKABLE, p.len()),
            None => 0,
        }
    } else {
        0
    };
    let own = node_style(&node.label, palette, foreground, pick);
    let mut r: Vec<Option<String>> = Vec::new();
    r.push(own);
    proof {
        assert(r.deep_view() =~= seq![own.deep_view()]);
        assert(seq![lv] + preorder(cs.take(0)) =~= seq![lv]);
    }
    let mut i: usize = 0;
    while i < node.children.len()
        invariant
            i <= node.children.len(),
            cs == node.children@,
            pv == palette.deep_view(),
            fv == foreground.deep_view(),
            lv == node.label.deep_view(),
            preorder(seq![*node]) == seq![lv] + preorder(cs),
            picks_possible(preorder(seq![*node]), pv),
            styles_fit(seq![lv] + preorder(cs.take(i as int)), r.deep_view(), pv, fv),
        decreases node.children.len() - i,
    {
        let ghost child = cs[i as int];
        let ghost before = cs.take(i as int);
        let ghost after = cs.skip(i + 1);
        proof {
            assert(cs == before + seq![child] + after);
            lemma_preorder_append(before + seq![child], after);
            lemma_preorder_append(before, seq![child]);
            let whole = preorder(seq![*node]);
            let off = 1 + preorder(before).len();
            let pc = preorder(seq![child]);
            assert forall|j: int| 0 <= j < pc.len() && takes_palette_color(#[trigger] pc[j], pv) implies pv->0.len()
                > FIRST_PICKABLE by {
                assert(whole[off + j] == pc[j]);
            }
        }
        let mut sub = process_node(&node.children[i], palette, foreground);
        let ghost old_r = r.deep_view();
        let ghost sub_v = sub.deep_view();
        r.append(&mut sub);
        proof {
            assert(r.deep_view() =~= old_r + sub_v);
            lemma_styles_fit_concat(seq![lv] + preorder(before), old_r, preorder(seq![child]), sub_v, pv, fv);
            assert(cs.take(i + 1) == before + seq![child]);
            lemma_preorder_append(before, seq![child]);
            assert(seq![lv] + preorder(before) + preorder(seq![child]) =~= seq![lv] + preorder(cs.take(i + 1)));
        }
        i += 1;
    }
    proof {
        assert(cs.take(cs.len() as int) == cs);
    }
    r
}

#[verifier::external_type_specification]
#[verifier::external_body]
pub struct ExElement(Element);

/// The `label` attributes of the elements of the SVG document `svg`, in
/// document order (each element before its children, the children before the
/// next sibling), as `elementtree` reads the document; `None` when it does
/// not parse.
pub uninterp spec fn svg_labels(svg: Seq<u8>) -> Option<Seq<Option<Seq<char>>>>;

/// The text that `elementtree` writes for the SVG document `svg` once the
/// element at position `i` in document order has had its `style` attribute
/// set to `styles[i]`, for each `i` where `styles[i]` is some (an element
/// past the end of `styles` is left as it is); `None` when the document does
/// not parse or cannot be written.
pub uninterp spec fn svg_render(svg: Seq<u8>, styles: Seq<Option<Seq<char>>>) -> Option<Seq<char>>;

/// One element of a parsed picture and its descendants as an `SvgNode`,
/// element for element (`Element::get_attr` and `Element::children`). It
/// serves `parse_svg` only, and nothing is stated of it on its own.
#[verifier::external_body]
fn svg_node(elem: &Element) -> SvgNode {
    SvgNode { label: elem.get_attr("label").map(str::to_owned), children: elem.children().map(svg_node).collect() }
}

/// Gives the elements of `elem` and its descendants, in document order from
/// position `*next` on, the styles of `styles` (`Element::set_attr`), leaving
/// an element whose style is `None`, or that lies past the end of `styles`,
/// as it is. It serves `render_svg` only, and nothing is stated of it on its
/// own.
#[verifier::external_body]
fn write_styles(elem: &mut Element, styles: &Vec<Option<String>>, next: &mut usize) {
    if let Some(Some(style)) = styles.get(*next) {
        elem.set_attr("style", style.clone());
    }
    *next += 1;
    for child in elem.children_mut() {
        write_styles(child, styles, next);
    }
}

/// `Element::from_reader` on the bytes of an SVG document, the result read
/// as an `SvgNode` tree. The contract says that the labels of the tree, in
/// document order, are the named `svg_labels` of the bytes; how XML is read
/// is not stated.
#[verifier::external_body]
fn parse_svg(svg: &[u8]) -> (r: Option<SvgNode>)
    ensures
        r is Some <==> svg_labels(svg@) is Some,
        r matches Some(t) ==> preorder(seq![t]) == svg_labels(svg@)->Some_0,
{
    Element::from_reader(svg).ok().map(|root| svg_node(&root))
}

/// `Element::from_reader` on the bytes of an SVG document, the styles
/// written in document order, then `Element::to_string`. The contract says
/// the result is the named `svg_render` of the bytes and the styles; the XML
/// text itself is not stated.
#[verifier::external_body]
fn render_svg(svg: &[u8], styles: &Vec<Option<String>>) -> (r: Option<String>)
    ensures
        r.deep_view() == svg_render(svg@, styles.deep_view()),
{
    let mut root = Element::from_reader(svg).ok()?;
    write_styles(&mut root, styles, &mut 0);
    root.to_string().ok()
}

/// Whether some node of `labels` is labelled `palette`.
pub open spec fn has_palette_stroke(labels: Seq<Option<Seq<char>>>) -> bool {
    exists|i: int| 0 <= i < labels.len() && labels[i] == Some(PALETTE_LABEL@)
}

/// Whether `node` or one of its descendants is labelled `palette`.
fn palette_stroke_in(node: &SvgNode) -> (r: bool)
    ensures
        r == has_palette_stroke(preorder(seq![*node])),
    decreases node,
{
    let ghost lv = node.label.deep_view();
    let ghost cs = node.children@;
    proof {
        assert(seq![*node].drop_first() == Seq::<SvgNode>::empty());
        assert(preorder(Seq::<SvgNode>::empty()) == Seq::<Option<Seq<char>>>::empty());
        assert(preorder(seq![*node]) == seq![lv] + preorder(cs) + preorder(Seq::<SvgNode>::empty()));
        assert(seq![lv] + preorder(cs) + Seq::<Option<Seq<char>>>::empty() =~= seq![lv] + preorder(cs));
    }
    if is_label(&node.label, PALETTE_LABEL) {
        proof { assert((seq![lv] + preorder(cs))[0] == lv); }
        return true;
    }
    let mut i: usize = 0;
    while i < node.children.len()
        invariant
            i <= node.children.len(),
            cs == node.children@,
            lv == node.label.deep_view(),
            lv != Some(PALETTE_LABEL@),
            preorder(seq![*node]) == seq![lv] + preorder(cs),
            !has_palette_stroke(seq![lv] + preorder(cs.take(i as int))),
        decreases node.children.len() - i,
    {
        let ghost child = cs[i as int];
        let ghost before = cs.take(i as int);
        let found = palette_stroke_in(&node.children[i]);
        let ghost a = seq![lv] + preorder(before);
        let ghost b = preorder(seq![child]);
        proof {
            assert(cs.take(i + 1) == before + seq![child]);
            lemma_preorder_append(before, seq![child]);
            assert(seq![lv] + preorder(cs.take(i + 1)) =~= a + b);
        }
        if found {
            proof {
                let j = choose|j: int| 0 <= j < b.len() && b[j] == Some(PALETTE_LABEL@);
                assert(cs == before + seq![child] + cs.skip(i + 1));
                lemma_preorder_append(before + seq![child], cs.skip(i + 1));
                assert(preorder(seq![*node])[a.len() + j] == b[j]);
            }
            return true;
        }
        proof {
            assert forall|j: int| 0 <= j < (a + b).len() implies (a + b)[j] != Some(PALETTE_LABEL@) by {
                if j >= a.len() {
                    assert((a + b)[j] == b[j - a.len()]);
                } else {
                    assert((a + b)[j] == a[j]);
                }
            }
        }
        i += 1;
    }
    proof { assert(cs.take(cs.len() as int) =~= cs); }
    false
}

/// What painting a theme onto the picture `svg` may give: nothing when the
/// picture does not parse; otherwise the picture written with styles that
/// fit its nodes (`styles_fit`), whatever palette entries were drawn.
pub open spec fn painted(
    svg: Seq<u8>,
    palette: Option<Seq<Seq<char>>>,
    foreground: Option<Seq<char>>,
    r: Option<Seq<char>>,
) -> bool {
    match svg_labels(svg) {
        None => r is None,
        Some(ls) => exists|st: Seq<Option<Seq<char>>>|
            #[trigger] styles_fit(ls, st, palette, foreground) && r == svg_render(svg, st),
    }
}

fn paint_tree(svg: &[u8], tree: &SvgNode, palette: &Option<Vec<String>>, foreground: &Option<String>) -> (r: Option<String>)
    requires
        svg_labels(svg@) == Some(preorder(seq![*tree])),
        picks_possible(preorder(seq![*tree]), palette.deep_view()),
    ensures
        painted(svg@, palette.deep_view(), foreground.deep_view(), r.deep_view()),
{
    let styles = process_node(tree, palette, foreground);
    let r = render_svg(svg, &styles);
    proof {
        let st = styles.deep_view();
        assert(styles_fit(svg_labels(svg@)->Some_0, st, palette.deep_view(), foreground.deep_view()));
    }
    r
}

/// The thumbnail picture `svg` painted in a theme with the given palette
/// and foreground colors, as SVG text; `None` when the picture does not
/// parse or cannot be written. A palette entry past the seventh is drawn at
/// random for each stroke labelled `palette`, so a theme with a palette
/// needs more than seven entries when the picture has such strokes.
pub fn apply_theme(svg: &[u8], palette: &Option<Vec<String>>, foreground: &Option<String>) -> (r: Option<String>)
    requires
        svg_labels(svg@) matches Some(ls) ==> picks_possible(ls, palette.deep_view()),
    ensures
        painted(svg@, palette.deep_view(), foreground.deep_view(), r.deep_view()),
{
    match parse_svg(svg) {
        Some(tree) => paint_tree(svg, &tree, palette, foreground),
        None => None,
    }
}

/// `apply_theme` where it can run: `None` when the theme's palette has
/// seven entries or fewer and the picture has a stroke labelled `palette`,
/// for which no entry could be drawn; otherwise `Some` of what painting
/// gives.
pub fn try_apply_theme(svg: &[u8], palette: &Option<Vec<String>>, foreground: &Option<String>) -> (r: Option<
    Option<String>,
>)
    ensures
        r is None <==> (svg_labels(svg@) matches Some(ls) && !picks_possible(ls, palette.deep_view())),
        r matches Some(t) ==> painted(svg@, palette.deep_view(), foreground.deep_view(), t.deep_view()),
{
    match parse_svg(svg) {
        None => Some(None),
        Some(tree) => {
            let ghost ls = preorder(seq![tree]);
            let short = match palette {
                Some(p) => p.len() <= FIRST_PICKABLE,
                None => false,
            };
            if short && palette_stroke_in(&tree) {
                proof {
                    let j = choose|j: int| 0 <= j < ls.len() && ls[j] == Some(PALETTE_LABEL@);
                    assert(takes_palette_color(ls[j], palette.deep_view()));
                }
                None
            } else {
                proof {
                    if short {
                        assert forall|i: int| 0 <= i < ls.len() && takes_palette_color(#[trigger] ls[i], palette.deep_view())
                            implies palette.deep_view()->0.len() > FIRST_PICKABLE by {
                            assert(!has_palette_stroke(ls));
                        }
                    }
                }
                Some(apply_theme(svg, palette, foreground))
            }
        },
    }
}

} // verus!
