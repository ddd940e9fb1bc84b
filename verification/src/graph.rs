//! The diagnostic renderer: converts an AST subtree into a nested textual
//! graph description, purely for tooling. Each node opens a uniquely
//! numbered named block, recursively renders its children, then closes the
//! block. The spec functions `render_*` give the exact text produced.

use vstd::prelude::*;
use vstd::string::*;

use crate::expressions::{Exp, ExpView};
use crate::id_nodes::{CGet, CGetView, IdGet, IdGetView, OpIn};
use crate::tokens::chars_to_string;
use crate::vars::{ConstVar, ConstVarView, GlobalVar, GlobalVarView, PrivateVar, PrivateVarView,
    Type, TypeView, VarDec, VarDecView, VarMod, VarModView, Vd, VdView};

verus! {

/// The decimal digit character for one digit value.
pub open spec fn digit_char(d: nat) -> char
    recommends
        d < 10,
{
    ((48 + d) as u8) as char
}

/// The decimal digits of `n`, most significant first.
pub open spec fn dec_digits(n: nat) -> Seq<char>
    decreases n,
{
    if n < 10 {
        seq![digit_char(n)]
    } else {
        dec_digits(n / 10).push(digit_char(n % 10))
    }
}

/// Appends the decimal digits of `n` to a character buffer.
fn push_decimal(n: usize, out: &mut Vec<char>)
    ensures
        final(out)@ == old(out)@ + dec_digits(n as nat),
    decreases n,
{
    if n < 10 {
        out.push((48 + n as u8) as char);
        proof {
            assert(out@ =~= old(out)@ + dec_digits(n as nat));
        }
    } else {
        push_decimal(n / 10, out);
        out.push((48 + (n % 10) as u8) as char);
        proof {
            assert(out@ =~= old(out)@ + dec_digits(n as nat));
        }
    }
}

/// Appends the decimal rendering of `n` to the graph text.
fn append_decimal(graph: &mut String, n: usize)
    ensures
        final(graph)@ == old(graph)@ + dec_digits(n as nat),
{
    let mut buf: Vec<char> = Vec::new();
    push_decimal(n, &mut buf);
    let s = chars_to_string(&buf);
    graph.append(s.as_str());
}

// ------------------------
// --- Rendered text    ---
// ------------------------

/// How many numbered blocks each node opens.
pub open spec fn count_exp(e: ExpView) -> nat {
    1
}

pub open spec fn count_type(t: TypeView) -> nat {
    1
}

pub open spec fn count_vd(v: VdView) -> nat {
    1 + count_type(v.type_)
}

pub open spec fn count_global_var(g: GlobalVarView) -> nat {
    1 + count_vd(g.vd)
}

pub open spec fn count_private_var(p: PrivateVarView) -> nat {
    1 + count_vd(p.vd)
}

pub open spec fn count_const_var(c: ConstVarView) -> nat {
    1 + match c {
        ConstVarView::PrivateVar(p) => count_private_var(p),
        ConstVarView::GlobalVar(g) => count_global_var(g),
        ConstVarView::Vd(vd) => count_vd(vd),
    }
}

pub open spec fn count_var_dec(d: VarDecView) -> nat {
    1 + match d {
        VarDecView::ConstVar(c) => count_const_var(c),
        VarDecView::PrivateVar(p) => count_private_var(p),
        VarDecView::GlobalVar(g) => count_global_var(g),
        VarDecView::Vd(vd) => count_vd(vd),
    }
}

pub open spec fn count_var_mod(m: VarModView) -> nat {
    1 + count_exp(m.exp)
}

/// Text of an expression block.
pub open spec fn render_exp(e: ExpView, id: nat) -> Seq<char> {
    "\nsubgraph Exp_"@ + dec_digits(id) + "[Exp]\nend"@
}

/// Text of a type block. The block label says `CGet`: the type node renders
/// as the constant lookup it resolves through.
pub open spec fn render_type(t: TypeView, id: nat) -> Seq<char> {
    "\nsubgraph CGet_"@ + dec_digits(id) + "[CGet "@ + t.name + "]\nend"@
}

/// Text of a variable-declaration block: its own header, the type child,
/// and the closing line.
pub open spec fn render_vd(v: VdView, id: nat) -> Seq<char> {
    "\nsubgraph Vd_"@ + dec_digits(id) + "[Vd "@ + v.identifier + "]"@ + render_type(
        v.type_,
        id + 1,
    ) + "\nend"@
}

pub open spec fn render_global_var(g: GlobalVarView, id: nat) -> Seq<char> {
    "\nsubgraph GlobalVar_"@ + dec_digits(id) + "[GlobalVar]"@ + render_vd(g.vd, id + 1)
        + "\nend"@
}

pub open spec fn render_private_var(p: PrivateVarView, id: nat) -> Seq<char> {
    "\nsubgraph PrivateVar_"@ + dec_digits(id) + "[PrivateVar]"@ + render_vd(p.vd, id + 1)
        + "\nend"@
}

pub open spec fn render_const_var(c: ConstVarView, id: nat) -> Seq<char> {
    "\nsubgraph ConstVar_"@ + dec_digits(id) + "[ConstVar]"@ + (match c {
        ConstVarView::PrivateVar(p) => render_private_var(p, id + 1),
        ConstVarView::GlobalVar(g) => render_global_var(g, id + 1),
        ConstVarView::Vd(vd) => render_vd(vd, id + 1),
    }) + "\nend"@
}

pub open spec fn render_var_dec(d: VarDecView, id: nat) -> Seq<char> {
    "\nsubgraph VarDec_"@ + dec_digits(id) + "[VarDec]"@ + (match d {
        VarDecView::ConstVar(c) => render_const_var(c, id + 1),
        VarDecView::PrivateVar(p) => render_private_var(p, id + 1),
        VarDecView::GlobalVar(g) => render_global_var(g, id + 1),
        VarDecView::Vd(vd) => render_vd(vd, id + 1),
    }) + "\nend"@
}

/// Text of a variable-modification block: its own numbered header, the
/// expression child under the next number, and the closing line.
pub open spec fn render_var_mod(m: VarModView, id: nat) -> Seq<char> {
    "\nsubgraph VarMod_"@ + dec_digits(id) + "[VarMod]"@ + render_exp(m.exp, id + 1) + "\nend"@
}

// ------------------------
// --- Rendering impls  ---
// ------------------------

impl Exp {
    /// Renders this node as a numbered block appended to `graph`.
    pub fn graph_display(&self, graph: &mut String, id: &mut usize)
        requires
            old(id) + count_exp(self@) <= usize::MAX,
        ensures
            final(graph)@ == old(graph)@ + render_exp(self@, *old(id) as nat),
            *final(id) == *old(id) + count_exp(self@),
    {
        graph.append("\nsubgraph Exp_");
        append_decimal(graph, *id);
        graph.append("[Exp]\nend");
        *id = *id + 1;
    }
}

impl Type {
    /// Renders this node as a numbered block appended to `graph`.
    pub fn graph_display(&self, graph: &mut String, id: &mut usize)
        requires
            old(id) + count_type(self@) <= usize::MAX,
        ensures
            final(graph)@ == old(graph)@ + render_type(self@, *old(id) as nat),
            *final(id) == *old(id) + count_type(self@),
    {
        graph.append("\nsubgraph CGet_");
        append_decimal(graph, *id);
        graph.append("[CGet ");
        graph.append(self.name.as_str());
        graph.append("]\nend");
        *id = *id + 1;
    }
}

impl Vd {
    /// Renders this node and its type child as nested numbered blocks.
    pub fn graph_display(&self, graph: &mut String, id: &mut usize)
        requires
            old(id) + count_vd(self@) <= usize::MAX,
        ensures
            final(graph)@ == old(graph)@ + render_vd(self@, *old(id) as nat),
            *final(id) == *old(id) + count_vd(self@),
    {
        graph.append("\nsubgraph Vd_");
        append_decimal(graph, *id);
        graph.append("[Vd ");
        graph.append(self.identifier.as_str());
        graph.append("]");
        *id = *id + 1;
        self.type_.graph_display(graph, id);
        graph.append("\nend");
    }
}

impl GlobalVar {
    /// Renders this node and its declaration child as nested numbered
    /// blocks.
    pub fn graph_display(&self, graph: &mut String, id: &mut usize)
        requires
            old(id) + count_global_var(self@) <= usize::MAX,
        ensures
            final(graph)@ == old(graph)@ + render_global_var(self@, *old(id) as nat),
            *final(id) == *old(id) + count_global_var(self@),
    {
        graph.append("\nsubgraph GlobalVar_");
        append_decimal(graph, *id);
        graph.append("[GlobalVar]");
        *id = *id + 1;
        self.vd.graph_display(graph, id);
        graph.append("\nend");
    }
}

impl PrivateVar {
    /// Renders this node and its declaration child as nested numbered
    /// blocks.
    pub fn graph_display(&self, graph: &mut String, id: &mut usize)
        requires
            old(id) + count_private_var(self@) <= usize::MAX,
        ensures
            final(graph)@ == old(graph)@ + render_private_var(self@, *old(id) as nat),
            *final(id) == *old(id) + count_private_var(self@),
    {
        graph.append("\nsubgraph PrivateVar_");
        append_decimal(graph, *id);
        graph.append("[PrivateVar]");
        *id = *id + 1;
        self.vd.graph_display(graph, id);
        graph.append("\nend");
    }
}

impl ConstVar {
    /// Renders this node and the declaration it wraps as nested numbered
    /// blocks.
    pub fn graph_display(&self, graph: &mut String, id: &mut usize)
        requires
            old(id) + count_const_var(self@) <= usize::MAX,
        ensures
            final(graph)@ == old(graph)@ + render_const_var(self@, *old(id) as nat),
            *final(id) == *old(id) + count_const_var(self@),
    {
        graph.append("\nsubgraph ConstVar_");
        append_decimal(graph, *id);
        graph.append("[ConstVar]");
        *id = *id + 1;
        match self {
            ConstVar::PrivateVar(private_var) => private_var.graph_display(graph, id),
            ConstVar::GlobalVar(global_var) => global_var.graph_display(graph, id),
            ConstVar::Vd(vd) => vd.graph_display(graph, id),
        }
        graph.append("\nend");
    }
}

impl VarDec {
    /// Renders this node and the declaration it holds as nested numbered
    /// blocks.
    #[verifier::rlimit(60)]
    pub fn graph_display(&self, graph: &mut String, id: &mut usize)
        requires
            old(id) + count_var_dec(self@) <= usize::MAX,
        ensures
            final(graph)@ == old(graph)@ + render_var_dec(self@, *old(id) as nat),
            *final(id) == *old(id) + count_var_dec(self@),
    {
        graph.append("\nsubgraph VarDec_");
        append_decimal(graph, *id);
        graph.append("[VarDec]");
        *id = *id + 1;
        match self {
            VarDec::ConstVar(const_var) => const_var.graph_display(graph, id),
            VarDec::PrivateVar(private_var) => private_var.graph_display(graph, id),
            VarDec::GlobalVar(global_var) => global_var.graph_display(graph, id),
            VarDec::Vd(vd) => vd.graph_display(graph, id),
        }
        graph.append("\nend");
    }
}

impl VarMod {
    /// Renders this node and its expression as nested numbered blocks.
    pub fn graph_display(&self, graph: &mut String, id: &mut usize)
        requires
            old(id) + count_var_mod(self@) <= usize::MAX,
        ensures
            final(graph)@ == old(graph)@ + render_var_mod(self@, *old(id) as nat),
            *final(id) == *old(id) + count_var_mod(self@),
    {
        graph.append("\nsubgraph VarMod_");
        append_decimal(graph, *id);
        graph.append("[VarMod]");
        *id = *id + 1;
        self.exp.graph_display(graph, id);
        graph.append("\nend");
    }
}

/// Text of a constant-lookup leaf block.
pub open spec fn render_cget(c: CGetView, id: nat) -> Seq<char> {
    "\nsubgraph CGet_"@ + dec_digits(id) + "[CGet "@ + c.name + "]\nend"@
}

/// How many numbered blocks an identifier chain opens: one per hop and one
/// for the leaf.
pub open spec fn count_id_get(g: IdGetView) -> nat {
    g.chain.len() + 1
}

/// Text of an identifier-chain block: one nested block per hop, ending in
/// the leaf block.
pub open spec fn render_id_get(g: IdGetView, id: nat) -> Seq<char>
    decreases g.chain.len(),
{
    let header = "\nsubgraph IdGet_"@ + dec_digits(id) + "[IdGet "@ + (if g.chain.len() > 0 {
        g.chain[0]
    } else {
        Seq::empty()
    }) + "]"@;
    if g.chain.len() <= 1 {
        header + render_cget(CGetView { name: g.leaf }, id + 1) + "\nend"@
    } else {
        header + render_id_get(IdGetView { chain: g.chain.skip(1), leaf: g.leaf }, id + 1)
            + "\nend"@
    }
}

/// An identifier chain always holds at least one hop.
proof fn lemma_id_get_chain_nonempty(g: &IdGet)
    ensures
        g@.chain.len() >= 1,
    decreases g,
{
}

impl CGet {
    /// Renders this leaf as a numbered block appended to `graph`.
    pub fn graph_display(&self, graph: &mut String, id: &mut usize)
        requires
            old(id) + 1 <= usize::MAX,
        ensures
            final(graph)@ == old(graph)@ + render_cget(self@, *old(id) as nat),
            *final(id) == *old(id) + 1,
    {
        graph.append("\nsubgraph CGet_");
        append_decimal(graph, *id);
        graph.append("[CGet ");
        graph.append(self.name.as_str());
        graph.append("]\nend");
        *id = *id + 1;
    }
}

impl IdGet {
    /// Renders this chain as nested numbered blocks, one per hop, ending in
    /// the leaf block.
    pub fn graph_display(&self, graph: &mut String, id: &mut usize)
        requires
            old(id) + count_id_get(self@) <= usize::MAX,
        ensures
            final(graph)@ == old(graph)@ + render_id_get(self@, *old(id) as nat),
            *final(id) == *old(id) + count_id_get(self@),
        decreases self,
    {
        graph.append("\nsubgraph IdGet_");
        append_decimal(graph, *id);
        graph.append("[IdGet ");
        graph.append(self.identifier.as_str());
        graph.append("]");
        *id = *id + 1;
        match &*self.op_in {
            OpIn::IdGet(inner) => {
                proof {
                    lemma_id_get_chain_nonempty(inner);
                    assert(self@.chain.skip(1) =~= inner@.chain);
                }
                inner.graph_display(graph, id);
            },
            OpIn::CGet(c_get) => {
                c_get.graph_display(graph, id);
            },
        }
        graph.append("\nend");
    }
}

/// A declaration tree opens at most five numbered blocks.
pub proof fn lemma_var_dec_count_small(d: VarDecView)
    ensures
        count_var_dec(d) <= 5,
{
}

/// Renders a whole declaration tree into its diagram text, numbering blocks
/// from 0.
pub fn render_diagram(node: &VarDec) -> (r: String)
    ensures
        r@ == render_var_dec(node@, 0),
{
    proof {
        lemma_var_dec_count_small(node@);
    }
    let mut graph = String::new();
    let mut id: usize = 0;
    node.graph_display(&mut graph, &mut id);
    graph
}

} // verus!
