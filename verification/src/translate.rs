//! Article bodies in batches for translation: whole top-level blocks, so that
//! a long article fits a provider's request size and no element is split.

use vstd::prelude::*;
use crate::chunk::flat;
use crate::markup::{
    edge_views, elements_html, fragment_edges, node_html, parse_edges, EdgeView, Markup,
    MarkupEdge, MarkupView,
};
use crate::text;

verus! {

// ─────────────────────────── finding the blocks ───────────────────────────

/// A generic wrapper tag that carries no text of its own.
pub open spec fn is_wrapper(name: Seq<char>) -> bool {
    name == "div"@ || name == "article"@ || name == "section"@ || name == "main"@
}

fn wrapper(name: &str) -> (r: bool)
    ensures
        r == is_wrapper(name@),
{
    text::same(name, "div") || text::same(name, "article") || text::same(name, "section")
        || text::same(name, "main")
}

/// The edge enters an element.
pub open spec fn opens_element(edge: EdgeView) -> bool {
    edge matches EdgeView::Open(MarkupView::Element(_))
}

/// The edge enters a generic wrapper element.
pub open spec fn opens_wrapper(edge: EdgeView) -> bool {
    edge matches EdgeView::Open(MarkupView::Element(name)) && is_wrapper(name)
}

/// The edge enters something to read: an element, or a text that is not blank.
pub open spec fn opens_solid(edge: EdgeView) -> bool {
    match edge {
        EdgeView::Open(MarkupView::Element(_)) => true,
        EdgeView::Open(MarkupView::Text(t)) => text::trimmed(t).len() > 0,
        _ => false,
    }
}

/// The places from `from` on at which nodes are entered, up to the edge that
/// leaves their parent, where `depth` nodes below the parent are open.
pub open spec fn entered(edges: Seq<EdgeView>, from: int, depth: nat) -> Seq<int>
    decreases edges.len() - from,
{
    if from < 0 || from >= edges.len() {
        Seq::empty()
    } else {
        match edges[from] {
            EdgeView::Open(_) => if depth == 0 {
                seq![from] + entered(edges, from + 1, 1)
            } else {
                entered(edges, from + 1, depth + 1)
            },
            EdgeView::Close(_) => if depth == 0 {
                Seq::empty()
            } else {
                entered(edges, from + 1, (depth - 1) as nat)
            },
        }
    }
}

/// The places at which the children of the node entered at `at` are entered.
pub open spec fn children(edges: Seq<EdgeView>, at: int) -> Seq<int> {
    entered(edges, at + 1, 0)
}

/// Those of the places at which an element is entered.
pub open spec fn elements_among(edges: Seq<EdgeView>, places: Seq<int>) -> Seq<int>
    decreases places.len(),
{
    if places.len() == 0 {
        Seq::empty()
    } else {
        let before = elements_among(edges, places.drop_last());
        if opens_element(edges[places.last()]) {
            before.push(places.last())
        } else {
            before
        }
    }
}

/// Entered places are those of opening edges, from `from` on.
pub proof fn lemma_entered(edges: Seq<EdgeView>, from: int, depth: nat)
    ensures
        forall|k: int|
            0 <= k < entered(edges, from, depth).len() ==> from <= #[trigger] entered(
                edges,
                from,
                depth,
            )[k] < edges.len() && edges[entered(edges, from, depth)[k]] is Open,
    decreases edges.len() - from,
{
    if 0 <= from < edges.len() {
        match edges[from] {
            EdgeView::Open(_) => {
                if depth == 0 {
                    lemma_entered(edges, from + 1, 1);
                    let rest = entered(edges, from + 1, 1);
                    let all = entered(edges, from, depth);
                    assert forall|k: int| 0 <= k < all.len() implies from <= #[trigger] all[k]
                        < edges.len() && edges[all[k]] is Open by {
                        if k > 0 {
                            assert(all[k] == rest[k - 1]);
                        }
                    }
                } else {
                    lemma_entered(edges, from + 1, depth + 1);
                }
            },
            EdgeView::Close(_) => {
                if depth > 0 {
                    lemma_entered(edges, from + 1, (depth - 1) as nat);
                }
            },
        }
    }
}

/// Element places are among the places given.
pub proof fn lemma_elements_among(edges: Seq<EdgeView>, places: Seq<int>)
    ensures
        forall|k: int|
            0 <= k < elements_among(edges, places).len() ==> places.contains(
                #[trigger] elements_among(edges, places)[k],
            ) && opens_element(edges[elements_among(edges, places)[k]]),
        elements_among(edges, places).len() <= places.len(),
    decreases places.len(),
{
    if places.len() > 0 {
        lemma_elements_among(edges, places.drop_last());
        let all = elements_among(edges, places);
        let before = elements_among(edges, places.drop_last());
        assert forall|k: int| 0 <= k < all.len() implies places.contains(#[trigger] all[k])
            && opens_element(edges[all[k]]) by {
            if k < before.len() {
                assert(all[k] == before[k]);
                let j = choose|j: int|
                    0 <= j < places.drop_last().len() && places.drop_last()[j] == before[k];
                assert(places[j] == before[k]);
            } else {
                assert(places[places.len() - 1] == all[k]);
            }
        }
    }
}

/// Those of the places at which something to read is entered.
pub open spec fn solid_among(edges: Seq<EdgeView>, places: Seq<int>) -> Seq<int>
    decreases places.len(),
{
    if places.len() == 0 {
        Seq::empty()
    } else {
        let before = solid_among(edges, places.drop_last());
        if opens_solid(edges[places.last()]) {
            before.push(places.last())
        } else {
            before
        }
    }
}

/// Places of something to read are among the places given, and none of those
/// is left out.
pub proof fn lemma_solid_among(edges: Seq<EdgeView>, places: Seq<int>)
    ensures
        forall|k: int|
            0 <= k < solid_among(edges, places).len() ==> places.contains(
                #[trigger] solid_among(edges, places)[k],
            ) && opens_solid(edges[solid_among(edges, places)[k]]),
        forall|k: int|
            0 <= k < places.len() && opens_solid(edges[#[trigger] places[k]]) ==> solid_among(
                edges,
                places,
            ).contains(places[k]),
    decreases places.len(),
{
    if places.len() > 0 {
        let head = places.drop_last();
        lemma_solid_among(edges, head);
        let all = solid_among(edges, places);
        let before = solid_among(edges, head);
        assert forall|k: int| 0 <= k < all.len() implies places.contains(#[trigger] all[k])
            && opens_solid(edges[all[k]]) by {
            if k < before.len() {
                assert(all[k] == before[k]);
                let j = choose|j: int| 0 <= j < head.len() && head[j] == before[k];
                assert(places[j] == before[k]);
            } else {
                assert(places[places.len() - 1] == all[k]);
            }
        }
        assert forall|k: int|
            0 <= k < places.len() && opens_solid(edges[#[trigger] places[k]]) implies all.contains(
            places[k],
        ) by {
            if k < head.len() {
                assert(head[k] == places[k]);
                let j = choose|j: int| 0 <= j < before.len() && before[j] == places[k];
                assert(all[j] == places[k]);
            } else {
                assert(all[all.len() - 1] == places[k]);
            }
        }
    }
}

proof fn lemma_elements_prefix(edges: Seq<EdgeView>, places: Seq<int>, i: int)
    requires
        0 <= i <= places.len(),
    ensures
        elements_among(edges, places.take(i)).len() <= elements_among(edges, places).len(),
        elements_among(edges, places.take(i)) == elements_among(edges, places).take(
            elements_among(edges, places.take(i)).len() as int,
        ),
    decreases places.len(),
{
    if i == places.len() {
        assert(places.take(i) =~= places);
        assert(elements_among(edges, places).take(elements_among(edges, places).len() as int)
            =~= elements_among(edges, places));
    } else {
        lemma_elements_prefix(edges, places.drop_last(), i);
        assert(places.drop_last().take(i) =~= places.take(i));
        let short = elements_among(edges, places.take(i));
        assert(elements_among(edges, places.drop_last()).take(short.len() as int)
            =~= elements_among(edges, places).take(short.len() as int));
    }
}

/// The node whose children are the blocks: `at`, or the generic wrapper inside
/// it where that is all there is to read in it, and so on inwards.
pub open spec fn content(edges: Seq<EdgeView>, at: int) -> int
    decreases edges.len() - at,
{
    let solid = solid_among(edges, children(edges, at));
    if solid.len() == 1 && opens_wrapper(edges[solid[0]]) {
        proof {
            lemma_entered(edges, at + 1, 0);
            lemma_solid_among(edges, children(edges, at));
        }
        content(edges, solid[0])
    } else {
        at
    }
}

/// The place of the fragment's root element, the first element below its
/// root; the fragment's root itself where there is none.
pub open spec fn root_element(edges: Seq<EdgeView>) -> int {
    let elements = elements_among(edges, children(edges, 0));
    if elements.len() > 0 {
        elements[0]
    } else {
        0
    }
}

/// The places of the blocks of a fragment.
pub open spec fn blocks(edges: Seq<EdgeView>) -> Seq<int> {
    children(edges, content(edges, root_element(edges)))
}

/// What the node at a place comes to as a piece of the body: an element's
/// HTML, a text that is not blank, and else nothing.
pub open spec fn piece(html: Seq<char>, edges: Seq<EdgeView>, place: int) -> Seq<Seq<char>> {
    match edges[place] {
        EdgeView::Open(MarkupView::Element(_)) => seq![node_html(html, place)],
        EdgeView::Open(MarkupView::Text(t)) => if text::trimmed(t).len() == 0 {
            Seq::empty()
        } else {
            seq![t]
        },
        _ => Seq::empty(),
    }
}

/// What the nodes at these places come to.
pub open spec fn pieces_at(html: Seq<char>, edges: Seq<EdgeView>, places: Seq<int>) -> Seq<
    Seq<char>,
>
    decreases places.len(),
{
    if places.len() == 0 {
        Seq::empty()
    } else {
        pieces_at(html, edges, places.drop_last()) + piece(html, edges, places.last())
    }
}

/// The pieces that a body is made of.
pub open spec fn body_pieces(html: Seq<char>) -> Seq<Seq<char>> {
    pieces_at(html, fragment_edges(html), blocks(fragment_edges(html)))
}

/// What a list of places holds.
pub open spec fn place_views(v: Seq<usize>) -> Seq<int> {
    v.map_values(|p: usize| p as int)
}

fn children_of(edges: &Vec<MarkupEdge>, at: usize) -> (r: Vec<usize>)
    requires
        at <= edges@.len(),
    ensures
        place_views(r@) == children(edge_views(edges@), at as int),
{
    let ghost all = edge_views(edges@);
    let mut out: Vec<usize> = Vec::new();
    if at == edges.len() {
        assert(place_views(out@) =~= children(all, at as int));
        return out;
    }
    let mut i: usize = at + 1;
    let mut depth: usize = 0;
    assert(place_views(out@) =~= Seq::<int>::empty());
    assert(Seq::<int>::empty() + children(all, at as int) =~= children(all, at as int));
    while i < edges.len()
        invariant
            all == edge_views(edges@),
            at < i <= edges@.len(),
            depth <= i,
            children(all, at as int) == place_views(out@) + entered(all, i as int, depth as nat),
        decreases edges@.len() - i,
    {
        let ghost before = place_views(out@);
        assert(all[i as int] == edges@[i as int]@);
        match &edges[i] {
            MarkupEdge::Open(_) => {
                if depth == 0 {
                    out.push(i);
                    assert(place_views(out@) =~= before.push(i as int));
                    assert(before + (seq![i as int] + entered(all, i + 1, 1)) =~= before.push(
                        i as int,
                    ) + entered(all, i + 1, 1));
                }
                depth = depth + 1;
            },
            MarkupEdge::Close(_) => {
                if depth == 0 {
                    assert(entered(all, i as int, 0) =~= Seq::<int>::empty());
                    assert(before + Seq::<int>::empty() =~= before);
                    return out;
                }
                depth = depth - 1;
            },
        }
        i = i + 1;
    }
    assert(place_views(out@) + Seq::<int>::empty() =~= place_views(out@));
    out
}

fn is_element(edge: &MarkupEdge) -> (r: bool)
    ensures
        r == opens_element(edge@),
{
    match edge {
        MarkupEdge::Open(node) => match node {
            Markup::Element(_) => true,
            _ => false,
        },
        MarkupEdge::Close(_) => false,
    }
}

fn elements_of(edges: &Vec<MarkupEdge>, places: &Vec<usize>) -> (r: Vec<usize>)
    requires
        forall|k: int| 0 <= k < places@.len() ==> #[trigger] places@[k] < edges@.len(),
    ensures
        place_views(r@) == elements_among(edge_views(edges@), place_views(places@)),
{
    let ghost all = edge_views(edges@);
    let ghost whole = place_views(places@);
    let mut out: Vec<usize> = Vec::new();
    assert(whole.take(0) =~= Seq::<int>::empty());
    assert(place_views(out@) =~= Seq::<int>::empty());
    for i in 0..places.len()
        invariant
            all == edge_views(edges@),
            whole == place_views(places@),
            forall|k: int| 0 <= k < places@.len() ==> #[trigger] places@[k] < edges@.len(),
            place_views(out@) == elements_among(all, whole.take(i as int)),
    {
        let ghost before = place_views(out@);
        assert(whole.take(i + 1).drop_last() =~= whole.take(i as int));
        let place: usize = places[i];
        assert(all[place as int] == edges@[place as int]@);
        if is_element(&edges[place]) {
            out.push(place);
            assert(place_views(out@) =~= before.push(place as int));
        }
    }
    assert(whole.take(whole.len() as int) =~= whole);
    out
}

fn is_solid(edge: &MarkupEdge) -> (r: bool)
    ensures
        r == opens_solid(edge@),
{
    match edge {
        MarkupEdge::Open(node) => match node {
            Markup::Element(_) => true,
            Markup::Text(t) => !text::trim(t.as_str()).as_str().is_empty(),
            Markup::Other => false,
        },
        MarkupEdge::Close(_) => false,
    }
}

fn solid_of(edges: &Vec<MarkupEdge>, places: &Vec<usize>) -> (r: Vec<usize>)
    requires
        forall|k: int| 0 <= k < places@.len() ==> #[trigger] places@[k] < edges@.len(),
    ensures
        place_views(r@) == solid_among(edge_views(edges@), place_views(places@)),
{
    let ghost all = edge_views(edges@);
    let ghost whole = place_views(places@);
    let mut out: Vec<usize> = Vec::new();
    assert(whole.take(0) =~= Seq::<int>::empty());
    assert(place_views(out@) =~= Seq::<int>::empty());
    for i in 0..places.len()
        invariant
            all == edge_views(edges@),
            whole == place_views(places@),
            forall|k: int| 0 <= k < places@.len() ==> #[trigger] places@[k] < edges@.len(),
            place_views(out@) == solid_among(all, whole.take(i as int)),
    {
        let ghost before = place_views(out@);
        assert(whole.take(i + 1).drop_last() =~= whole.take(i as int));
        let place: usize = places[i];
        assert(all[place as int] == edges@[place as int]@);
        if is_solid(&edges[place]) {
            out.push(place);
            assert(place_views(out@) =~= before.push(place as int));
        }
    }
    assert(whole.take(whole.len() as int) =~= whole);
    out
}

/// The places of the blocks of a traversed fragment.
pub fn block_places(edges: &Vec<MarkupEdge>) -> (r: Vec<usize>)
    ensures
        place_views(r@) == blocks(edge_views(edges@)),
        forall|k: int| 0 <= k < r@.len() ==> #[trigger] r@[k] < edges@.len(),
{
    let ghost all = edge_views(edges@);
    let top = children_of(edges, 0);
    proof {
        lemma_entered(all, 1, 0);
        assert forall|k: int| 0 <= k < top@.len() implies #[trigger] top@[k] < edges@.len() by {
            assert(place_views(top@)[k] == top@[k]);
        }
    }
    let elements = elements_of(edges, &top);
    let mut at: usize = 0;
    proof {
        lemma_elements_among(all, place_views(top@));
    }
    if elements.len() > 0 {
        at = elements[0];
        proof {
            assert(place_views(elements@)[0] == at);
            let j = choose|j: int| 0 <= j < place_views(top@).len() && place_views(top@)[j] == at;
            assert(top@[j] == at);
        }
    }
    let ghost start = at as int;
    assert(start == root_element(all));
    loop
        invariant
            all == edge_views(edges@),
            at <= edges@.len(),
            content(all, start) == content(all, at as int),
            start == root_element(all),
        decreases edges@.len() - at,
    {
        let nodes = children_of(edges, at);
        proof {
            lemma_entered(all, at + 1, 0);
            lemma_solid_among(all, children(all, at as int));
            assert forall|k: int| 0 <= k < nodes@.len() implies at < #[trigger] nodes@[k]
                < edges@.len() by {
                assert(place_views(nodes@)[k] == nodes@[k]);
            }
        }
        let solid = solid_of(edges, &nodes);
        if solid.len() != 1 {
            return nodes;
        }
        let only: usize = solid[0];
        proof {
            assert(place_views(solid@)[0] == only);
            let j = choose|j: int|
                0 <= j < place_views(nodes@).len() && place_views(nodes@)[j] == only;
            assert(nodes@[j] == only);
            assert(all[only as int] == edges@[only as int]@);
        }
        let inner = match &edges[only] {
            MarkupEdge::Open(node) => match node {
                Markup::Element(name) => wrapper(name.as_str()),
                _ => false,
            },
            MarkupEdge::Close(_) => false,
        };
        if !inner {
            return nodes;
        }
        at = only;
    }
}

// ─────────────────────────── grouping the blocks ───────────────────────────

/// The batches closed behind these pieces and the one still open: a piece
/// closes the open batch where both together would pass the budget.
pub open spec fn grouped(pieces: Seq<Seq<char>>, budget: nat) -> (Seq<Seq<char>>, Seq<char>)
    decreases pieces.len(),
{
    if pieces.len() == 0 {
        (Seq::empty(), Seq::empty())
    } else {
        let (closed, open) = grouped(pieces.drop_last(), budget);
        let next = pieces.last();
        if open.len() > 0 && text::bytes(open) + text::bytes(next) > budget {
            (closed.push(open), next)
        } else {
            (closed, open + next)
        }
    }
}

/// The batches that these pieces make under a budget of bytes.
pub open spec fn batches(pieces: Seq<Seq<char>>, budget: nat) -> Seq<Seq<char>> {
    let (closed, open) = grouped(pieces, budget);
    if open.len() > 0 {
        closed.push(open)
    } else {
        closed
    }
}

/// The batches that these pieces make under a budget of bytes.
pub fn group_pieces(pieces: &Vec<String>, budget: usize) -> (r: Vec<String>)
    ensures
        text::views(r@) == batches(text::views(pieces@), budget as nat),
{
    let ghost all = text::views(pieces@);
    let mut closed: Vec<String> = Vec::new();
    let mut open = String::new();
    assert(all.take(0) =~= Seq::<Seq<char>>::empty());
    assert(text::views(closed@) =~= Seq::<Seq<char>>::empty());
    for i in 0..pieces.len()
        invariant
            all == text::views(pieces@),
            grouped(all.take(i as int), budget as nat) == (text::views(closed@), open@),
    {
        assert(all.take(i + 1).drop_last() =~= all.take(i as int));
        assert(all.take(i + 1).last() == pieces@[i as int]@);
        let size: usize = text::byte_len(pieces[i].as_str());
        let used: usize = text::byte_len(open.as_str());
        if !open.as_str().is_empty() && (size > budget || used > budget - size) {
            let ghost before = closed@;
            let ghost shut = open@;
            closed.push(open);
            assert(text::views(closed@) =~= text::views(before).push(shut));
            open = pieces[i].clone();
        } else {
            open.push_str(pieces[i].as_str());
        }
    }
    assert(all.take(all.len() as int) =~= all);
    if !open.as_str().is_empty() {
        let ghost before = closed@;
        let ghost shut = open@;
        closed.push(open);
        assert(text::views(closed@) =~= text::views(before).push(shut));
    }
    closed
}

/// The pieces that a body is made of.
fn split_pieces(html: &str) -> (r: Vec<String>)
    ensures
        text::views(r@) == body_pieces(html@),
        forall|i: int| 0 <= i < r@.len() ==> (#[trigger] r@[i])@.len() > 0,
{
    let edges = parse_edges(html);
    let ghost all = edge_views(edges@);
    let places = block_places(&edges);
    let ghost whole = place_views(places@);
    let elements = elements_of(&edges, &places);
    proof {
        lemma_elements_among(all, whole);
        assert forall|i: int| 0 <= i < elements@.len() implies #[trigger] elements@[i]
            < all.len() && (all[elements@[i] as int] matches EdgeView::Open(
            MarkupView::Element(_),
        )) by {
            assert(place_views(elements@)[i] == elements@[i]);
            let j = choose|j: int| 0 <= j < whole.len() && whole[j] == elements@[i];
            assert(places@[j] == elements@[i]);
            assert(opens_element(all[elements@[i] as int]));
        }
    }
    let rendered = elements_html(html, &elements);
    let mut out: Vec<String> = Vec::new();
    let mut k: usize = 0;
    assert(whole.take(0) =~= Seq::<int>::empty());
    assert(text::views(out@) =~= Seq::<Seq<char>>::empty());
    for i in 0..places.len()
        invariant
            all == edge_views(edges@),
            all == fragment_edges(html@),
            whole == place_views(places@),
            forall|j: int| 0 <= j < places@.len() ==> #[trigger] places@[j] < edges@.len(),
            place_views(elements@) == elements_among(all, whole),
            rendered@.len() == elements@.len(),
            forall|j: int|
                0 <= j < rendered@.len() ==> #[trigger] rendered@[j]@ == node_html(
                    html@,
                    elements@[j] as int,
                ) && rendered@[j]@.len() > 0,
            forall|j: int| 0 <= j < out@.len() ==> (#[trigger] out@[j])@.len() > 0,
            k == elements_among(all, whole.take(i as int)).len(),
            text::views(out@) == pieces_at(html@, all, whole.take(i as int)),
    {
        let ghost before = out@;
        let ghost now = whole.take(i + 1);
        assert(now.drop_last() =~= whole.take(i as int));
        assert(now.last() == places@[i as int]);
        let place: usize = places[i];
        assert(all[place as int] == edges@[place as int]@);
        match &edges[place] {
            MarkupEdge::Open(node) => match node {
                Markup::Element(_) => {
                    proof {
                        lemma_elements_prefix(all, whole, i + 1);
                        assert(elements_among(all, now)[k as int] == place);
                        assert(place_views(elements@)[k as int] == place);
                    }
                    assert(k < rendered.len());
                    let element = rendered[k].clone();
                    let ghost e = element@;
                    out.push(element);
                    k = k + 1;
                    assert(text::views(out@) =~= text::views(before) + seq![e]);
                },
                Markup::Text(t) => {
                    if !text::trim(t.as_str()).as_str().is_empty() {
                        assert(t@.len() > 0);
                        out.push(t.clone());
                        assert(text::views(out@) =~= text::views(before) + seq![t@]);
                    } else {
                        assert(text::views(before) + Seq::<Seq<char>>::empty() =~= text::views(
                            before,
                        ));
                    }
                },
                Markup::Other => {
                    assert(text::views(before) + Seq::<Seq<char>>::empty() =~= text::views(before));
                },
            },
            MarkupEdge::Close(_) => {
                assert(text::views(before) + Seq::<Seq<char>>::empty() =~= text::views(before));
            },
        }
    }
    assert(whole.take(whole.len() as int) =~= whole);
    out
}

/// Splits body HTML into batches of whole top-level blocks, each at most
/// `budget` bytes where possible. A body that is one generic wrapper, possibly
/// nested, is unwrapped so that its children are batched; one with anything
/// to read beside the wrapper is not.
pub fn chunk_blocks(html: &str, budget: usize) -> (r: Vec<String>)
    ensures
        text::views(r@) == batches(body_pieces(html@), budget as nat),
        forall|k: int| 0 <= k < body_pieces(html@).len() ==> (#[trigger] body_pieces(html@)[k]).len() > 0,
{
    let pieces = split_pieces(html);
    proof {
        assert forall|k: int| 0 <= k < body_pieces(html@).len() implies (#[trigger] body_pieces(
            html@,
        )[k]).len() > 0 by {
            assert(text::views(pieces@)[k] == pieces@[k]@);
        }
    }
    group_pieces(&pieces, budget)
}

// ───────────────────────────── laws ─────────────────────────────

proof fn lemma_grouped_concatenates(pieces: Seq<Seq<char>>, budget: nat)
    ensures
        text::concatenated(grouped(pieces, budget).0) + grouped(pieces, budget).1
            == text::concatenated(pieces),
    decreases pieces.len(),
{
    if pieces.len() > 0 {
        lemma_grouped_concatenates(pieces.drop_last(), budget);
        let (closed, open) = grouped(pieces.drop_last(), budget);
        let next = pieces.last();
        assert(closed.push(open).drop_last() =~= closed);
        assert((text::concatenated(closed) + open) + next =~= text::concatenated(closed) + (open
            + next));
    } else {
        assert(Seq::<char>::empty() + Seq::<char>::empty() =~= Seq::<char>::empty());
    }
}

/// The batches one behind the other are the pieces one behind the other:
/// nothing is lost, added or moved.
pub proof fn law_batches_keep_the_text(pieces: Seq<Seq<char>>, budget: nat)
    ensures
        text::concatenated(batches(pieces, budget)) == text::concatenated(pieces),
{
    lemma_grouped_concatenates(pieces, budget);
    let (closed, open) = grouped(pieces, budget);
    if open.len() > 0 {
        assert(closed.push(open).drop_last() =~= closed);
    } else {
        assert(text::concatenated(closed) + open =~= text::concatenated(closed));
    }
}

/// `batch` is made of neighbouring whole pieces, and passes the budget only
/// where it is one single piece.
pub open spec fn is_fair(pieces: Seq<Seq<char>>, budget: nat, batch: Seq<char>) -> bool {
    exists|i: int, j: int|
        #![trigger pieces.subrange(i, j)]
        0 <= i <= j <= pieces.len() && batch == text::concatenated(pieces.subrange(i, j)) && (
        text::bytes(batch) <= budget || exists|m: int| i <= m < j && batch == #[trigger] pieces[m])
}

/// What is known of the batch still open behind these pieces.
spec fn open_is_fair(pieces: Seq<Seq<char>>, budget: nat, open: Seq<char>, i: int) -> bool {
    0 <= i <= pieces.len() && open == text::concatenated(pieces.subrange(i, pieces.len() as int))
        && (open.len() == 0 || text::bytes(open) <= budget || exists|m: int|
        i <= m < pieces.len() && open == #[trigger] pieces[m])
}

proof fn lemma_fair_grows(pieces: Seq<Seq<char>>, next: Seq<char>, budget: nat, batch: Seq<char>)
    requires
        is_fair(pieces, budget, batch),
    ensures
        is_fair(pieces.push(next), budget, batch),
{
    let (i, j) = choose|i: int, j: int|
        #![trigger pieces.subrange(i, j)]
        0 <= i <= j <= pieces.len() && batch == text::concatenated(pieces.subrange(i, j)) && (
        text::bytes(batch) <= budget || exists|m: int| i <= m < j && batch == #[trigger] pieces[m]);
    let more = pieces.push(next);
    assert(more.subrange(i, j) =~= pieces.subrange(i, j));
    if text::bytes(batch) > budget {
        let m = choose|m: int| i <= m < j && batch == #[trigger] pieces[m];
        assert(more[m] == pieces[m]);
    }
}

proof fn lemma_grouped_is_fair(pieces: Seq<Seq<char>>, budget: nat) -> (start: int)
    ensures
        forall|k: int|
            0 <= k < grouped(pieces, budget).0.len() ==> is_fair(
                pieces,
                budget,
                #[trigger] grouped(pieces, budget).0[k],
            ) && grouped(pieces, budget).0[k].len() > 0,
        open_is_fair(pieces, budget, grouped(pieces, budget).1, start),
    decreases pieces.len(),
{
    if pieces.len() == 0 {
        assert(pieces.subrange(0, 0) =~= Seq::<Seq<char>>::empty());
        0
    } else {
        let head = pieces.drop_last();
        let next = pieces.last();
        let n = pieces.len() as int;
        assert(head.push(next) =~= pieces);
        let start = lemma_grouped_is_fair(head, budget);
        let (closed, open) = grouped(head, budget);
        let (closed2, open2) = grouped(pieces, budget);
        assert forall|k: int| 0 <= k < closed.len() implies is_fair(
            pieces,
            budget,
            #[trigger] closed[k],
        ) by {
            lemma_fair_grows(head, next, budget, closed[k]);
        }
        assert(pieces.subrange(start, n - 1) =~= head.subrange(start, n - 1));
        if open.len() > 0 && text::bytes(open) + text::bytes(next) > budget {
            assert(is_fair(pieces, budget, open)) by {
                assert(open == text::concatenated(pieces.subrange(start, n - 1)));
                if text::bytes(open) > budget {
                    let m = choose|m: int| start <= m < head.len() && open == #[trigger] head[m];
                    assert(pieces[m] == head[m]);
                }
            }
            assert forall|k: int| 0 <= k < closed2.len() implies is_fair(
                pieces,
                budget,
                #[trigger] closed2[k],
            ) && closed2[k].len() > 0 by {
                if k < closed.len() {
                    assert(closed2[k] == closed[k]);
                }
            }
            let one = pieces.subrange(n - 1, n);
            assert(one.drop_last() =~= Seq::<Seq<char>>::empty());
            assert(text::concatenated(one.drop_last()) =~= Seq::<char>::empty());
            assert(one.last() == next);
            assert(text::concatenated(one) =~= next);
            assert(open2 == pieces[n - 1]);
            n - 1
        } else {
            let run = pieces.subrange(start, n);
            assert(run.drop_last() =~= head.subrange(start, n - 1));
            assert(run.last() == next);
            text::lemma_bytes_add(open, next);
            if open.len() == 0 {
                assert(open2 =~= next);
                assert(open2 == pieces[n - 1]);
            }
            start
        }
    }
}

/// No batch is empty, and each is made of whole neighbouring pieces; one that
/// passes the budget is a single piece.
pub proof fn law_batches_never_split(pieces: Seq<Seq<char>>, budget: nat)
    ensures
        forall|k: int|
            0 <= k < batches(pieces, budget).len() ==> is_fair(
                pieces,
                budget,
                #[trigger] batches(pieces, budget)[k],
            ) && batches(pieces, budget)[k].len() > 0,
{
    let start = lemma_grouped_is_fair(pieces, budget);
    let (closed, open) = grouped(pieces, budget);
    if open.len() > 0 {
        assert(is_fair(pieces, budget, open)) by {
            assert(open == text::concatenated(pieces.subrange(start, pieces.len() as int)));
        }
        assert forall|k: int| 0 <= k < batches(pieces, budget).len() implies is_fair(
            pieces,
            budget,
            #[trigger] batches(pieces, budget)[k],
        ) && batches(pieces, budget)[k].len() > 0 by {
            if k < closed.len() {
                assert(batches(pieces, budget)[k] == closed[k]);
            }
        }
    }
}

/// The budget decides where batches part, not what they say.
pub proof fn law_budgets_keep_the_text(pieces: Seq<Seq<char>>, a: nat, b: nat)
    ensures
        text::concatenated(batches(pieces, a)) == text::concatenated(batches(pieces, b)),
{
    law_batches_keep_the_text(pieces, a);
    law_batches_keep_the_text(pieces, b);
}

/// `groups` is a way to part pieces: in order, none left out, and each group
/// within the budget or a single piece.
pub open spec fn is_split(groups: Seq<Seq<Seq<char>>>, pieces: Seq<Seq<char>>, budget: nat) -> bool {
    &&& flat(groups) == pieces
    &&& forall|k: int|
        0 <= k < groups.len() ==> {
            &&& (#[trigger] groups[k]).len() > 0
            &&& text::bytes(text::concatenated(groups[k])) <= budget || groups[k].len() == 1
        }
}

/// The groups of pieces that the batches are made of: those closed, and the
/// one still open.
spec fn greedy_groups(pieces: Seq<Seq<char>>, budget: nat) -> (Seq<Seq<Seq<char>>>, Seq<Seq<char>>)
    decreases pieces.len(),
{
    if pieces.len() == 0 {
        (Seq::empty(), Seq::empty())
    } else {
        let (closed, open) = greedy_groups(pieces.drop_last(), budget);
        let said = grouped(pieces.drop_last(), budget).1;
        let next = pieces.last();
        if said.len() > 0 && text::bytes(said) + text::bytes(next) > budget {
            (closed.push(open), seq![next])
        } else {
            (closed, open.push(next))
        }
    }
}

/// A group keeps to the budget or is a single piece.
spec fn is_group(group: Seq<Seq<char>>, budget: nat) -> bool {
    group.len() > 0 && (text::bytes(text::concatenated(group)) <= budget || group.len() == 1)
}

proof fn lemma_greedy_groups(pieces: Seq<Seq<char>>, budget: nat)
    requires
        forall|k: int| 0 <= k < pieces.len() ==> (#[trigger] pieces[k]).len() > 0,
    ensures
        ({
            let (groups, group) = greedy_groups(pieces, budget);
            let (closed, open) = grouped(pieces, budget);
            &&& flat(groups) + group == pieces
            &&& groups.len() == closed.len()
            &&& forall|k: int|
                0 <= k < groups.len() ==> is_group(#[trigger] groups[k], budget) && closed[k]
                    == text::concatenated(groups[k])
            &&& open == text::concatenated(group)
            &&& group.len() > 0 ==> open.len() > 0 && is_group(group, budget)
            &&& group.len() == 0 <==> pieces.len() == 0
        }),
    decreases pieces.len(),
{
    if pieces.len() == 0 {
        assert(flat(Seq::<Seq<Seq<char>>>::empty()) + Seq::<Seq<char>>::empty() =~= pieces);
    } else {
        let head = pieces.drop_last();
        let next = pieces.last();
        assert forall|k: int| 0 <= k < head.len() implies (#[trigger] head[k]).len() > 0 by {
            assert(head[k] == pieces[k]);
        }
        lemma_greedy_groups(head, budget);
        let (groups, group) = greedy_groups(head, budget);
        let (closed, open) = grouped(head, budget);
        assert(pieces[pieces.len() - 1].len() > 0);
        assert(head.push(next) =~= pieces);
        if open.len() > 0 && text::bytes(open) + text::bytes(next) > budget {
            let more = groups.push(group);
            lemma_flat_last(more);
            assert(more.drop_last() =~= groups);
            assert(flat(more) + seq![next] =~= pieces);
            let one = seq![next];
            assert(one.drop_last() =~= Seq::<Seq<char>>::empty());
            assert(text::concatenated(one.drop_last()) =~= Seq::<char>::empty());
            assert(text::concatenated(one) =~= next);
            assert forall|k: int| 0 <= k < more.len() implies is_group(#[trigger] more[k], budget)
                && closed.push(open)[k] == text::concatenated(more[k]) by {
                if k < groups.len() {
                    assert(more[k] == groups[k]);
                }
            }
        } else {
            let grown = group.push(next);
            assert(grown.drop_last() =~= group);
            assert(flat(groups) + grown =~= (flat(groups) + group).push(next));
            assert(text::concatenated(grown) == open + next);
            text::lemma_bytes_add(open, next);
        }
    }
}

/// The batches part the pieces, none of which is empty: in order, none left
/// out, and each batch within the budget or a single piece.
pub proof fn law_batches_part_the_pieces(pieces: Seq<Seq<char>>, budget: nat)
    requires
        forall|k: int| 0 <= k < pieces.len() ==> (#[trigger] pieces[k]).len() > 0,
    ensures
        exists|groups: Seq<Seq<Seq<char>>>| #[trigger]
            is_split(groups, pieces, budget) && batches(pieces, budget) == groups.map_values(
                |g: Seq<Seq<char>>| text::concatenated(g),
            ),
{
    lemma_greedy_groups(pieces, budget);
    let (groups, group) = greedy_groups(pieces, budget);
    let (closed, open) = grouped(pieces, budget);
    let all = if group.len() > 0 {
        groups.push(group)
    } else {
        groups
    };
    if group.len() > 0 {
        lemma_flat_last(all);
        assert(all.drop_last() =~= groups);
    } else {
        assert(flat(groups) + group =~= flat(groups));
        assert(open.len() == 0);
    }
    assert forall|k: int| 0 <= k < all.len() implies (#[trigger] all[k]).len() > 0 && (text::bytes(
        text::concatenated(all[k]),
    ) <= budget || all[k].len() == 1) by {
        if k < groups.len() {
            assert(is_group(groups[k], budget));
        }
    }
    assert(is_split(all, pieces, budget));
    let said = all.map_values(|g: Seq<Seq<char>>| text::concatenated(g));
    assert(batches(pieces, budget) =~= said) by {
        assert forall|k: int| 0 <= k < said.len() implies batches(pieces, budget)[k] == said[k] by {
            if k < groups.len() {
                assert(is_group(groups[k], budget));
            }
        }
    }
}

/// How many batches there are if the open one is closed.
spec fn batch_count(pieces: Seq<Seq<char>>, budget: nat) -> nat {
    let (closed, open) = grouped(pieces, budget);
    closed.len() + (if open.len() > 0 {
        1nat
    } else {
        0nat
    })
}

proof fn lemma_flat_last(groups: Seq<Seq<Seq<char>>>)
    requires
        groups.len() > 0,
    ensures
        flat(groups) == flat(groups.drop_last()) + groups.last(),
    decreases groups.len(),
{
    if groups.len() == 1 {
        assert(groups.drop_first() =~= Seq::<Seq<Seq<char>>>::empty());
        assert(groups.drop_last() =~= Seq::<Seq<Seq<char>>>::empty());
        assert(flat(groups) =~= flat(groups.drop_last()) + groups.last());
    } else {
        lemma_flat_last(groups.drop_first());
        assert(groups.drop_first().drop_last() =~= groups.drop_last().drop_first());
        assert(groups.drop_first().last() == groups.last());
        assert(groups.drop_last()[0] == groups[0]);
        assert(flat(groups) =~= flat(groups.drop_last()) + groups.last());
    }
}

proof fn lemma_count_step(pieces: Seq<Seq<char>>, budget: nat)
    requires
        pieces.len() > 0,
    ensures
        ({
            let before = batch_count(pieces.drop_last(), budget);
            let now = batch_count(pieces, budget);
            &&& now <= before + 1
            &&& now == before + 1 ==> grouped(pieces, budget).1 == pieces.last()
                && pieces.last().len() > 0
        }),
{
    let (closed, open) = grouped(pieces.drop_last(), budget);
    let next = pieces.last();
    if open.len() == 0 {
        assert(open + next =~= next);
    }
}

/// However the pieces are parted, greedy batches are not behind: they are
/// fewer, or as many and the last of them is no larger.
proof fn lemma_greedy_stays_ahead(
    groups: Seq<Seq<Seq<char>>>,
    pieces: Seq<Seq<char>>,
    budget: nat,
)
    requires
        is_split(groups, pieces, budget),
        pieces.len() > 0,
    ensures
        groups.len() > 0,
        batch_count(pieces, budget) <= groups.len(),
        batch_count(pieces, budget) == groups.len() ==> grouped(pieces, budget).1.len() > 0
            && text::bytes(grouped(pieces, budget).1) <= text::bytes(
            text::concatenated(groups.last()),
        ),
    decreases pieces.len(),
{
    if groups.len() == 0 {
        assert(flat(groups).len() == 0);
    }
    lemma_flat_last(groups);
    lemma_count_step(pieces, budget);
    let head = pieces.drop_last();
    let next = pieces.last();
    let last = groups.last();
    let others = groups.drop_last();
    assert(groups[groups.len() - 1] == last);
    assert(last.last() == next);
    let (closed, open) = grouped(head, budget);
    let (closed2, open2) = grouped(pieces, budget);
    assert(text::concatenated(last) == text::concatenated(last.drop_last()) + next);
    text::lemma_bytes_add(text::concatenated(last.drop_last()), next);
    text::lemma_bytes_add(open, next);
    if last.len() == 1 {
        assert(last.drop_last() =~= Seq::<Seq<char>>::empty());
        assert(text::concatenated(last.drop_last()) =~= Seq::<char>::empty());
        assert(text::concatenated(last) =~= next);
        assert(head =~= flat(others));
        assert forall|k: int| 0 <= k < others.len() implies (#[trigger] others[k]).len() > 0 && (
        text::bytes(text::concatenated(others[k])) <= budget || others[k].len() == 1) by {
            assert(others[k] == groups[k]);
        }
        if head.len() > 0 {
            lemma_greedy_stays_ahead(others, head, budget);
        } else {
            assert(grouped(head, budget) == (Seq::<Seq<char>>::empty(), Seq::<char>::empty()));
        }
    } else {
        let shorter = last.drop_last();
        let split = others.push(shorter);
        assert(split.drop_last() =~= others);
        lemma_flat_last(split);
        assert(flat(split) =~= head);
        assert forall|k: int| 0 <= k < split.len() implies (#[trigger] split[k]).len() > 0 && (
        text::bytes(text::concatenated(split[k])) <= budget || split[k].len() == 1) by {
            if k < others.len() {
                assert(split[k] == groups[k]);
            }
        }
        lemma_greedy_stays_ahead(split, head, budget);
        assert(split.last() == shorter);
    }
}

/// No other way to part the pieces, in order and each group within the budget
/// or a single piece, has fewer batches.
pub proof fn law_batches_are_fewest(
    groups: Seq<Seq<Seq<char>>>,
    pieces: Seq<Seq<char>>,
    budget: nat,
)
    requires
        is_split(groups, pieces, budget),
    ensures
        batches(pieces, budget).len() <= groups.len(),
{
    if pieces.len() > 0 {
        lemma_greedy_stays_ahead(groups, pieces, budget);
    }
}

proof fn lemma_pieces_of_solid(html: Seq<char>, edges: Seq<EdgeView>, places: Seq<int>)
    ensures
        forall|k: int|
            0 <= k < places.len() && opens_solid(edges[#[trigger] places[k]]) ==> piece(
                html,
                edges,
                places[k],
            ).len() == 1 && pieces_at(html, edges, places).contains(
                piece(html, edges, places[k])[0],
            ),
        (forall|k: int| 0 <= k < places.len() ==> !opens_solid(edges[#[trigger] places[k]]))
            ==> pieces_at(html, edges, places).len() == 0,
    decreases places.len(),
{
    if places.len() > 0 {
        let head = places.drop_last();
        lemma_pieces_of_solid(html, edges, head);
        let before = pieces_at(html, edges, head);
        let all = pieces_at(html, edges, places);
        assert forall|k: int|
            0 <= k < places.len() && opens_solid(edges[#[trigger] places[k]]) implies piece(
            html,
            edges,
            places[k],
        ).len() == 1 && all.contains(piece(html, edges, places[k])[0]) by {
            let p = piece(html, edges, places[k]);
            if k < head.len() {
                assert(head[k] == places[k]);
                let j = choose|j: int| 0 <= j < before.len() && before[j] == p[0];
                assert(all[j] == p[0]);
            } else {
                assert(all[before.len() as int] == p[0]);
            }
        }
        if forall|k: int| 0 <= k < places.len() ==> !opens_solid(edges[#[trigger] places[k]]) {
            assert forall|k: int| 0 <= k < head.len() implies !opens_solid(
                edges[#[trigger] head[k]],
            ) by {
                assert(head[k] == places[k]);
            }
            assert(!opens_solid(edges[places[places.len() - 1]]));
        }
    }
}

/// A body without elements and without text that is not blank has no batches.
pub proof fn law_blank_bodies_have_no_batches(
    html: Seq<char>,
    edges: Seq<EdgeView>,
    budget: nat,
)
    requires
        forall|k: int|
            0 <= k < blocks(edges).len() ==> !opens_solid(edges[#[trigger] blocks(edges)[k]]),
    ensures
        batches(pieces_at(html, edges, blocks(edges)), budget) == Seq::<Seq<char>>::empty(),
{
    lemma_pieces_of_solid(html, edges, blocks(edges));
    assert(pieces_at(html, edges, blocks(edges)) =~= Seq::<Seq<char>>::empty());
}

/// What is no element, directly in the root element or in a generic wrapper,
/// holds nothing: a text or a comment there is left where it is entered.
pub open spec fn texts_hold_nothing(edges: Seq<EdgeView>) -> bool {
    forall|at: int, k: int|
        (at == root_element(edges) || opens_wrapper(edges[at])) && 0 <= k < children(
            edges,
            at,
        ).len() && !opens_element(edges[#[trigger] children(edges, at)[k]]) ==> left_at(
            edges,
            children(edges, at)[k] + 1,
            0,
        ) == children(edges, at)[k] + 1
}

/// The place from `from` on at which a node is left, where `depth` nodes below
/// it are open.
pub open spec fn left_at(edges: Seq<EdgeView>, from: int, depth: nat) -> int
    decreases edges.len() - from,
{
    if from < 0 || from >= edges.len() {
        edges.len() as int
    } else {
        match edges[from] {
            EdgeView::Open(_) => left_at(edges, from + 1, depth + 1),
            EdgeView::Close(_) => if depth == 0 {
                from
            } else {
                left_at(edges, from + 1, (depth - 1) as nat)
            },
        }
    }
}

/// The node entered at `place` is the one entered at `at`, or inside it.
pub open spec fn is_within(edges: Seq<EdgeView>, place: int, at: int) -> bool {
    place == at || at < place < left_at(edges, at + 1, 0)
}

proof fn lemma_behind_child(edges: Seq<EdgeView>, from: int, depth: nat)
    requires
        0 <= from,
        depth >= 1,
    ensures
        ({
            let end = left_at(edges, from, (depth - 1) as nat);
            if end < edges.len() {
                &&& from <= end
                &&& edges[end] is Close
                &&& entered(edges, from, depth) == entered(edges, end + 1, 0)
                &&& left_at(edges, from, depth) == left_at(edges, end + 1, 0)
            } else {
                &&& end == edges.len()
                &&& entered(edges, from, depth).len() == 0
                &&& left_at(edges, from, depth) == edges.len()
            }
        }),
    decreases edges.len() - from,
{
    if from < edges.len() {
        match edges[from] {
            EdgeView::Open(_) => lemma_behind_child(edges, from + 1, depth + 1),
            EdgeView::Close(_) => {
                if depth > 1 {
                    lemma_behind_child(edges, from + 1, (depth - 1) as nat);
                }
            },
        }
    }
}

proof fn lemma_in_a_child(edges: Seq<EdgeView>, from: int, place: int) -> (k: int)
    requires
        0 <= from <= place < left_at(edges, from, 0),
        place < edges.len(),
        edges[place] is Open,
    ensures
        0 <= k < entered(edges, from, 0).len(),
        is_within(edges, place, entered(edges, from, 0)[k]),
    decreases edges.len() - from,
{
    let all = entered(edges, from, 0);
    let rest = entered(edges, from + 1, 1);
    assert(edges[from] is Open);
    assert(all == seq![from] + rest);
    assert(all[0] == from);
    let end = left_at(edges, from + 1, 0);
    if place == from || place < end {
        0
    } else {
        lemma_behind_child(edges, from + 1, 1);
        assert(end < edges.len());
        assert(place != end);
        let j = lemma_in_a_child(edges, end + 1, place);
        assert(all[j + 1] == rest[j]);
        j + 1
    }
}

proof fn lemma_left_in_bounds(edges: Seq<EdgeView>, from: int, depth: nat)
    ensures
        left_at(edges, from, depth) <= edges.len(),
    decreases edges.len() - from,
{
    if 0 <= from < edges.len() {
        match edges[from] {
            EdgeView::Open(_) => lemma_left_in_bounds(edges, from + 1, depth + 1),
            EdgeView::Close(_) => {
                if depth > 0 {
                    lemma_left_in_bounds(edges, from + 1, (depth - 1) as nat);
                }
            },
        }
    }
}

proof fn lemma_in_a_block(edges: Seq<EdgeView>, at: int, place: int) -> (k: int)
    requires
        texts_hold_nothing(edges),
        at == root_element(edges) || opens_wrapper(edges[at]),
        0 <= at < place < left_at(edges, at + 1, 0),
        edges[place] matches EdgeView::Open(MarkupView::Text(t)) && text::trimmed(t).len() > 0,
    ensures
        0 <= k < children(edges, content(edges, at)).len(),
        is_within(edges, place, children(edges, content(edges, at))[k]),
        opens_solid(edges[children(edges, content(edges, at))[k]]),
    decreases edges.len() - at,
{
    let nodes = children(edges, at);
    let solid = solid_among(edges, nodes);
    lemma_left_in_bounds(edges, at + 1, 0);
    lemma_entered(edges, at + 1, 0);
    lemma_solid_among(edges, nodes);
    let k = lemma_in_a_child(edges, at + 1, place);
    let child = nodes[k];
    assert(edges[child] is Open);
    if child != place && !opens_element(edges[child]) {
        assert(left_at(edges, children(edges, at)[k] + 1, 0) == child + 1);
    }
    assert(opens_solid(edges[nodes[k]]));
    if solid.len() == 1 && opens_wrapper(edges[solid[0]]) {
        let j = choose|j: int| 0 <= j < solid.len() && solid[j] == child;
        assert(child == solid[0]);
        assert(child != place);
        lemma_in_a_block(edges, child, place)
    } else {
        k
    }
}

/// No text is lost: every text of a body that is not blank is one of its
/// blocks or inside one, and that block is one of the pieces that the batches
/// are made of.
pub proof fn law_no_text_is_lost(html: Seq<char>, edges: Seq<EdgeView>, place: int)
    requires
        texts_hold_nothing(edges),
        root_element(edges) < place < left_at(edges, root_element(edges) + 1, 0),
        edges[place] matches EdgeView::Open(MarkupView::Text(t)) && text::trimmed(t).len() > 0,
    ensures
        exists|k: int|
            0 <= k < blocks(edges).len() && is_within(edges, place, #[trigger] blocks(edges)[k])
                && piece(html, edges, blocks(edges)[k]).len() == 1 && pieces_at(
                html,
                edges,
                blocks(edges),
            ).contains(piece(html, edges, blocks(edges)[k])[0]),
{
    let root = root_element(edges);
    lemma_entered(edges, 1, 0);
    lemma_elements_among(edges, children(edges, 0));
    assert(root >= 0) by {
        let elements = elements_among(edges, children(edges, 0));
        if elements.len() > 0 {
            let j = choose|j: int|
                0 <= j < children(edges, 0).len() && children(edges, 0)[j] == elements[0];
            assert(children(edges, 0)[j] >= 1);
        }
    }
    let k = lemma_in_a_block(edges, root, place);
    lemma_pieces_of_solid(html, edges, blocks(edges));
    assert(opens_solid(edges[blocks(edges)[k]]));
}

/// Only a bare `div`, `article`, `section` or `main` is unwrapped.
pub proof fn law_wrappers(name: Seq<char>, t: Seq<char>)
    ensures
        is_wrapper(name) <==> name == "div"@ || name == "article"@ || name == "section"@ || name
            == "main"@,
        opens_element(EdgeView::Open(MarkupView::Element(name))),
        opens_solid(EdgeView::Open(MarkupView::Element(name))),
        opens_wrapper(EdgeView::Open(MarkupView::Element(name))) <==> is_wrapper(name),
        !opens_element(EdgeView::Open(MarkupView::Text(t))),
        opens_solid(EdgeView::Open(MarkupView::Text(t))) <==> text::trimmed(t).len() > 0,
        !opens_solid(EdgeView::Open(MarkupView::Other)),
        !opens_element(EdgeView::Close(MarkupView::Element(name))),
        !opens_solid(EdgeView::Close(MarkupView::Element(name))),
{
}

/// The children of a node are entered one behind the other: the first right
/// behind the node, each of the others right behind the one before it was left,
/// and there are none behind the edge that leaves the node.
pub proof fn law_children_follow_each_other(edges: Seq<EdgeView>, at: int, from: int)
    requires
        0 <= from <= edges.len(),
    ensures
        children(edges, at) == entered(edges, at + 1, 0),
        from == edges.len() ==> entered(edges, from, 0).len() == 0,
        from < edges.len() && edges[from] is Close ==> entered(edges, from, 0).len() == 0,
        from < edges.len() && edges[from] is Open ==> entered(edges, from, 0) == seq![from]
            + entered(edges, left_at(edges, from + 1, 0) + 1, 0),
{
    if from < edges.len() && edges[from] is Open {
        lemma_behind_open(edges, from + 1, 0);
    }
}

proof fn lemma_behind_open(edges: Seq<EdgeView>, from: int, depth: nat)
    requires
        0 <= from <= edges.len(),
    ensures
        entered(edges, from, depth + 1) == entered(edges, left_at(edges, from, depth) + 1, 0),
    decreases edges.len() - from,
{
    if from < edges.len() {
        match edges[from] {
            EdgeView::Open(_) => {
                lemma_behind_open(edges, from + 1, depth + 1);
            },
            EdgeView::Close(_) => {
                if depth > 0 {
                    lemma_behind_open(edges, from + 1, (depth - 1) as nat);
                }
            },
        }
    }
}

/// Where a node is left: at the first edge that leaves more than was entered
/// behind it.
pub proof fn law_nodes_are_left(edges: Seq<EdgeView>, from: int, depth: nat)
    requires
        0 <= from < edges.len(),
    ensures
        edges[from] is Close && depth == 0 ==> left_at(edges, from, depth) == from,
        edges[from] is Close && depth > 0 ==> left_at(edges, from, depth) == left_at(
            edges,
            from + 1,
            (depth - 1) as nat,
        ),
        edges[from] is Open ==> left_at(edges, from, depth) == left_at(edges, from + 1, depth + 1),
        left_at(edges, edges.len() as int, depth) == edges.len(),
{
}

/// Of the places given, those of elements, and those of something to read, are
/// found, each once and in order.
pub proof fn law_places_are_found(edges: Seq<EdgeView>, places: Seq<int>, place: int)
    ensures
        elements_among(edges, Seq::empty()) == Seq::<int>::empty(),
        solid_among(edges, Seq::empty()) == Seq::<int>::empty(),
        elements_among(edges, places.push(place)) == (if opens_element(edges[place]) {
            elements_among(edges, places).push(place)
        } else {
            elements_among(edges, places)
        }),
        solid_among(edges, places.push(place)) == (if opens_solid(edges[place]) {
            solid_among(edges, places).push(place)
        } else {
            solid_among(edges, places)
        }),
{
    assert(places.push(place).drop_last() =~= places);
}

/// A body is unwrapped exactly where a wrapper is all there is to read in it, and
/// then inwards as long as that is so; its blocks are the children of what is
/// left, from the first element of the fragment on.
pub proof fn law_bodies_are_unwrapped(edges: Seq<EdgeView>, at: int)
    ensures
        ({
            let solid = solid_among(edges, children(edges, at));
            &&& solid.len() == 1 && opens_wrapper(edges[solid[0]]) ==> content(edges, at)
                == content(edges, solid[0])
            &&& !(solid.len() == 1 && opens_wrapper(edges[solid[0]])) ==> content(edges, at) == at
        }),
        ({
            let elements = elements_among(edges, children(edges, 0));
            &&& elements.len() > 0 ==> root_element(edges) == elements[0]
            &&& elements.len() == 0 ==> root_element(edges) == 0
        }),
        blocks(edges) == children(edges, content(edges, root_element(edges))),
{
}

/// Every block is a piece, in order: an element by its HTML, a text that is not
/// blank as it is, and nothing of what is neither.
pub proof fn law_every_block_is_a_piece(
    html: Seq<char>,
    edges: Seq<EdgeView>,
    places: Seq<int>,
    place: int,
)
    ensures
        pieces_at(html, edges, Seq::empty()) == Seq::<Seq<char>>::empty(),
        opens_element(edges[place]) ==> pieces_at(html, edges, places.push(place)) == pieces_at(
            html,
            edges,
            places,
        ).push(node_html(html, place)),
        edges[place] matches EdgeView::Open(MarkupView::Text(t)) ==> (text::trimmed(t).len() > 0
            ==> pieces_at(html, edges, places.push(place)) == pieces_at(html, edges, places).push(
            t,
        )),
        !opens_solid(edges[place]) ==> pieces_at(html, edges, places.push(place)) == pieces_at(
            html,
            edges,
            places,
        ),
        body_pieces(html) == pieces_at(html, fragment_edges(html), blocks(fragment_edges(html))),
{
    assert(places.push(place).drop_last() =~= places);
    let before = pieces_at(html, edges, places);
    assert(before + Seq::<Seq<char>>::empty() =~= before);
    assert(before + seq![node_html(html, place)] =~= before.push(node_html(html, place)));
    if let EdgeView::Open(MarkupView::Text(t)) = edges[place] {
        assert(before + seq![t] =~= before.push(t));
    }
}

/// A piece joins the open batch exactly where both together keep to the budget
/// or the batch is empty, and else starts the next one.
pub proof fn law_pieces_join_while_they_fit(
    pieces: Seq<Seq<char>>,
    next: Seq<char>,
    budget: nat,
)
    ensures
        grouped(Seq::empty(), budget) == (Seq::<Seq<char>>::empty(), Seq::<char>::empty()),
        ({
            let (closed, open) = grouped(pieces, budget);
            grouped(pieces.push(next), budget) == (if open.len() == 0 || text::bytes(open + next)
                <= budget {
                (closed, open + next)
            } else {
                (closed.push(open), next)
            })
        }),
        batches(pieces, budget) == (if grouped(pieces, budget).1.len() > 0 {
            grouped(pieces, budget).0.push(grouped(pieces, budget).1)
        } else {
            grouped(pieces, budget).0
        }),
{
    assert(pieces.push(next).drop_last() =~= pieces);
    text::lemma_bytes_add(grouped(pieces, budget).1, next);
}

} // verus!
