//! The node-hierarchy chunk: a flat list of nodes in which each names its
//! parent by index.

use crate::bytes::le_i32;
use crate::error::{fault, truncated, FormatError, ParseError};
use crate::model::{lemma_views_push, views};
use crate::reader::{
    decoded, decoded_list, entries, float_at, lemma_repeat_error_stays, lemma_repeat_len,
    spec_repeat, spec_string, Reader,
};
use crate::xac::xac_parser::{
    matrix44_at, quaternion_at, vec3d_at, xac_read_matrix44, xac_read_quaternion, xac_read_string,
    xac_read_vec3d,
};
use crate::xac::xac_forest::{
    find_stray_parent, first_stray, lemma_first_stray, lemma_searches_decide, parents_exist,
};
use crate::xac::xac_structs::{
    XacActorNode, XacActorNodeView, XacNodeHierarchy, XacNodeHierarchyView,
};
use vstd::prelude::*;

verus! {

/// The node at `pos`: rotation and scale rotation, position and scale, twenty
/// bytes that carry nothing, the parent's index, the child count, the
/// bounds-inclusion flag, the transform, the importance factor, then the
/// name.
pub open spec fn spec_node(data: Seq<u8>, pos: int) -> Result<(XacActorNodeView, int), ParseError> {
    if pos + 156 > data.len() {
        Err(truncated(pos, 156, data.len() as int))
    } else {
        match spec_string(data, pos + 156) {
            Err(e) => Err(e),
            Ok((name, end)) => Ok(
                (
                    XacActorNodeView {
                        rotation: quaternion_at(data, pos),
                        scale_rotation: quaternion_at(data, pos + 16),
                        position: vec3d_at(data, pos + 32),
                        scale: vec3d_at(data, pos + 44),
                        parent_node_id: le_i32(data, pos + 76) as i32,
                        num_child_nodes: le_i32(data, pos + 80) as i32,
                        include_bounds_calc: le_i32(data, pos + 84) as i32,
                        transform: matrix44_at(data, pos + 88),
                        importance_factor: float_at(data, pos + 152),
                        name,
                    },
                    end,
                ),
            ),
        }
    }
}

/// [`spec_node`] as a function value.
pub open spec fn node_item() -> spec_fn(Seq<u8>, int) -> Result<
    (XacActorNodeView, int),
    ParseError,
> {
    |data: Seq<u8>, pos: int| spec_node(data, pos)
}

/// Reads one node.
pub fn read_node(file: &mut Reader) -> (res: Result<XacActorNode, ParseError>)
    requires
        old(file).wf(),
    ensures
        final(file).follows(old(file)),
        decoded(res, final(file).cursor(), spec_node(old(file).bytes(), old(file).cursor())),
{
    file.need(156)?;
    let rotation = xac_read_quaternion(file)?;
    let scale_rotation = xac_read_quaternion(file)?;
    let position = xac_read_vec3d(file)?;
    let scale = xac_read_vec3d(file)?;
    file.skip(20)?;
    let parent_node_id = file.read_i32()?;
    let num_child_nodes = file.read_i32()?;
    let include_bounds_calc = file.read_i32()?;
    let transform = xac_read_matrix44(file)?;
    let importance_factor = file.read_float()?;
    let name = xac_read_string(file)?;
    Ok(
        XacActorNode {
            rotation,
            scale_rotation,
            position,
            scale,
            parent_node_id,
            num_child_nodes,
            include_bounds_calc,
            transform,
            importance_factor,
            name,
        },
    )
}

/// Reads `count` nodes, laid out back to back; a negative count reads none.
pub fn read_nodes(file: &mut Reader, count: i32) -> (res: Result<Vec<XacActorNode>, ParseError>)
    requires
        old(file).wf(),
    ensures
        final(file).follows(old(file)),
        decoded_list(
            res,
            final(file).cursor(),
            spec_repeat(
                node_item(),
                old(file).bytes(),
                old(file).cursor(),
                entries(count as int) as nat,
            ),
        ),
{
    let ghost data = file.bytes();
    let ghost start = file.cursor();
    let mut out: Vec<XacActorNode> = Vec::new();
    let mut i: i32 = 0;
    proof {
        assert(views(out@) =~= Seq::empty());
    }
    while i < count
        invariant
            0 <= i,
            i <= entries(count as int),
            file.wf(),
            file.bytes() == data,
            data == old(file).bytes(),
            start == old(file).cursor(),
            out@.len() == i,
            spec_repeat(node_item(), data, start, i as nat) == Ok::<
                (Seq<XacActorNodeView>, int),
                ParseError,
            >((views(out@), file.cursor())),
        decreases count - i,
    {
        match read_node(file) {
            Err(e) => {
                proof {
                    lemma_repeat_error_stays(
                        node_item(),
                        data,
                        start,
                        (i + 1) as nat,
                        entries(count as int) as nat,
                    );
                }
                return Err(e);
            },
            Ok(v) => {
                proof {
                    lemma_views_push(out@, v);
                }
                out.push(v);
                i = i + 1;
            },
        }
    }
    Ok(out)
}

/// The error for a hierarchy at `pos` that declares `count` nodes, where
/// `count` is not positive.
pub open spec fn bad_node_count(pos: int, count: i32) -> ParseError {
    fault(FormatError::InvalidNodeCount { count }, pos)
}

/// The error for a hierarchy at `pos` whose node `node` names a parent that
/// is neither -1 nor the index of one of its nodes.
pub open spec fn bad_parent(pos: int, nodes: Seq<XacActorNodeView>, node: int) -> ParseError {
    fault(
        FormatError::InvalidParentIndex {
            node: node as usize,
            parent: nodes[node].parent_node_id,
        },
        pos,
    )
}

/// The node hierarchy at `pos`: the node count, which must be positive, the
/// declared number of roots, then the nodes, each of which must name a
/// parent that exists. The first node that does not fails the hierarchy.
pub open spec fn spec_node_hierarchy(data: Seq<u8>, pos: int) -> Result<
    (XacNodeHierarchyView, int),
    ParseError,
> {
    if pos + 4 > data.len() {
        Err(truncated(pos, 4, data.len() as int))
    } else {
        let num_nodes = le_i32(data, pos) as i32;
        if num_nodes <= 0 {
            Err(bad_node_count(pos, num_nodes))
        } else if pos + 8 > data.len() {
            Err(truncated(pos + 4, 4, data.len() as int))
        } else {
            match spec_repeat(node_item(), data, pos + 8, num_nodes as nat) {
                Err(e) => Err(e),
                Ok((nodes, end)) => if first_stray(nodes, 0) < nodes.len() {
                    Err(bad_parent(pos, nodes, first_stray(nodes, 0)))
                } else {
                    Ok(
                        (
                            XacNodeHierarchyView {
                                num_nodes,
                                num_root_nodes: le_i32(data, pos + 4) as i32,
                                node_data: nodes,
                            },
                            end,
                        ),
                    )
                },
            }
        }
    }
}

/// A hierarchy as decoded has as many nodes as it declares, and each names
/// a parent that exists.
pub proof fn lemma_decoded_hierarchy(data: Seq<u8>, pos: int)
    ensures
        spec_node_hierarchy(data, pos) matches Ok((h, _)) ==> parents_exist(h.node_data)
            && h.node_data.len() == h.num_nodes,
{
    if spec_node_hierarchy(data, pos) is Ok {
        let num_nodes = le_i32(data, pos) as i32;
        let decoded = spec_repeat(node_item(), data, pos + 8, num_nodes as nat);
        assert(num_nodes > 0 && decoded is Ok);
        let nodes = decoded->Ok_0.0;
        lemma_repeat_len(node_item(), data, pos + 8, num_nodes as nat);
        lemma_first_stray(nodes, 0);
        lemma_searches_decide(nodes);
    }
}

/// Reads a node hierarchy: its nodes, in file order. It is refused if it
/// declares no node, or if a node names a parent that is neither -1 nor the
/// index of one of its nodes. So a hierarchy that was read has as many nodes
/// as it declares, and the parent of each is a node of it or none. The
/// declared number of roots is kept as it is and not compared with the
/// nodes; nor is it looked into whether the parents lead around in a circle.
pub fn read_node_hierarchy(file: &mut Reader) -> (res: Result<XacNodeHierarchy, ParseError>)
    requires
        old(file).wf(),
    ensures
        final(file).follows(old(file)),
        decoded(
            res,
            final(file).cursor(),
            spec_node_hierarchy(old(file).bytes(), old(file).cursor()),
        ),
        res matches Ok(h) ==> parents_exist(h@.node_data) && h@.node_data.len() == h.num_nodes,
{
    let at = file.position();
    let num_nodes = file.read_i32()?;
    if num_nodes <= 0 {
        return Err(ParseError::at(FormatError::InvalidNodeCount { count: num_nodes }, at));
    }
    let num_root_nodes = file.read_i32()?;
    let node_data = read_nodes(file, num_nodes)?;
    proof {
        lemma_decoded_hierarchy(file.bytes(), at as int);
    }
    let stray = find_stray_parent(&node_data);
    if stray < node_data.len() {
        return Err(
            ParseError::at(
                FormatError::InvalidParentIndex {
                    node: stray,
                    parent: node_data[stray].parent_node_id,
                },
                at,
            ),
        );
    }
    Ok(XacNodeHierarchy { num_nodes, num_root_nodes, node_data })
}

} // verus!
