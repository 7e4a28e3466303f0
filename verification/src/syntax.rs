//! What a Rust source text holds: its functions and types, in the order in which
//! they stand in it.

use syn::spanned::Spanned;
use syn::visit::{self, Visit};
use syn::{
    BinOp, Block, ExprBinary, ExprForLoop, ExprIf, ExprLet, ExprLoop, ExprMatch, ExprWhile,
    ImplItemFn, ItemEnum, ItemFn, ItemImpl, ItemStruct, ItemTrait, TraitItemFn,
};
use vstd::prelude::*;

use crate::order::views;
use crate::quality::{
    FlowEvent, FunctionOutline, Operator, Outline, OutlineView, TypeOutline,
};

verus! {

#[verifier::external_type_specification]
#[verifier::external_body]
pub struct ExBlock(syn::Block);

#[verifier::external_type_specification]
#[verifier::external_body]
pub struct ExItemFn(syn::ItemFn);

#[verifier::external_type_specification]
#[verifier::external_body]
pub struct ExImplItemFn(syn::ImplItemFn);

#[verifier::external_type_specification]
#[verifier::external_body]
pub struct ExTraitItemFn(syn::TraitItemFn);

#[verifier::external_type_specification]
#[verifier::external_body]
pub struct ExItemStruct(syn::ItemStruct);

#[verifier::external_type_specification]
#[verifier::external_body]
pub struct ExItemEnum(syn::ItemEnum);

#[verifier::external_type_specification]
#[verifier::external_body]
pub struct ExItemTrait(syn::ItemTrait);

#[verifier::external_type_specification]
#[verifier::external_body]
pub struct ExItemImpl(syn::ItemImpl);

#[verifier::external_type_specification]
#[verifier::external_body]
pub struct ExExprIf(syn::ExprIf);

#[verifier::external_type_specification]
#[verifier::external_body]
pub struct ExExprForLoop(syn::ExprForLoop);

#[verifier::external_type_specification]
#[verifier::external_body]
pub struct ExExprWhile(syn::ExprWhile);

#[verifier::external_type_specification]
#[verifier::external_body]
pub struct ExExprLoop(syn::ExprLoop);

#[verifier::external_type_specification]
#[verifier::external_body]
pub struct ExExprMatch(syn::ExprMatch);

#[verifier::external_type_specification]
#[verifier::external_body]
pub struct ExExprBinary(syn::ExprBinary);

#[verifier::external_type_specification]
#[verifier::external_body]
pub struct ExExprLet(syn::ExprLet);

/// Where a text stops being Rust, and why; columns are counted from nothing.
#[derive(Debug)]
pub struct SyntaxFailure {
    pub line: usize,
    pub column: usize,
    pub message: String,
}

/// Writes down what is met in a body, in the order of the text.
struct FlowWriter {
    met: Vec<FlowEvent>,
}

/// `Visit` of `syn` hands each node of a body to the method of its kind. Each
/// method writes down what the node is and goes on with what is inside it, by the
/// function of `syn` that has the method's name. Nothing is claimed of them.
impl<'syntax> Visit<'syntax> for FlowWriter {
    #[verifier::external_body]
    fn visit_expr_if(&mut self, node: &'syntax ExprIf) {
        self.met.push(FlowEvent::Branch);
        visit::visit_expr_if(self, node);
        self.met.push(FlowEvent::Leave);
    }

    #[verifier::external_body]
    fn visit_expr_for_loop(&mut self, node: &'syntax ExprForLoop) {
        self.met.push(FlowEvent::Branch);
        visit::visit_expr_for_loop(self, node);
        self.met.push(FlowEvent::Leave);
    }

    #[verifier::external_body]
    fn visit_expr_while(&mut self, node: &'syntax ExprWhile) {
        self.met.push(FlowEvent::Branch);
        visit::visit_expr_while(self, node);
        self.met.push(FlowEvent::Leave);
    }

    #[verifier::external_body]
    fn visit_expr_loop(&mut self, node: &'syntax ExprLoop) {
        self.met.push(FlowEvent::Branch);
        visit::visit_expr_loop(self, node);
        self.met.push(FlowEvent::Leave);
    }

    #[verifier::external_body]
    fn visit_expr_match(&mut self, node: &'syntax ExprMatch) {
        self.met.push(FlowEvent::Choice(node.arms.len()));
        visit::visit_expr_match(self, node);
        self.met.push(FlowEvent::Leave);
    }

    #[verifier::external_body]
    fn visit_expr_binary(&mut self, node: &'syntax ExprBinary) {
        self.met.push(FlowEvent::Binary(match node.op {
            BinOp::And(_) => Operator::And,
            BinOp::Or(_) => Operator::Or,
            _ => Operator::Other,
        }));
        visit::visit_expr_binary(self, node);
    }

    #[verifier::external_body]
    fn visit_expr_let(&mut self, node: &'syntax ExprLet) {
        self.met.push(FlowEvent::LetTest);
        visit::visit_expr_let(self, node);
    }
}

/// What `Visit::visit_block` of `syn` meets in a body. Nothing is claimed of it
/// here: what a text's bodies hold is part of what the text holds.
#[verifier::external_body]
fn flow_events(body: &Block) -> (met: Vec<FlowEvent>) {
    let mut writer = FlowWriter { met: Vec::new() };
    writer.visit_block(body);
    writer.met
}

/// Writes down the functions and types that are met, in the order of the text.
struct OutlineWriter {
    met: Vec<Outline>,
}

/// `Visit` of `syn` hands each node of a file to the method of its kind. Each
/// method writes down the node's name, its lines, its parameters and its body, and
/// goes on with what is inside it, by the function of `syn` that has the method's
/// name. Nothing is claimed of them.
impl<'syntax> Visit<'syntax> for OutlineWriter {
    #[verifier::external_body]
    fn visit_item_fn(&mut self, node: &'syntax ItemFn) {
        self.met.push(Outline::Function(FunctionOutline {
            name: node.sig.ident.to_string(),
            first_line: node.span().start().line,
            last_line: node.span().end().line,
            signature_line: node.sig.span().start().line,
            parameters: node.sig.inputs.len(),
            body: Some(flow_events(&node.block)),
        }));
        visit::visit_item_fn(self, node);
    }

    #[verifier::external_body]
    fn visit_impl_item_fn(&mut self, node: &'syntax ImplItemFn) {
        self.met.push(Outline::Function(FunctionOutline {
            name: node.sig.ident.to_string(),
            first_line: node.span().start().line,
            last_line: node.span().end().line,
            signature_line: node.sig.span().start().line,
            parameters: node.sig.inputs.len(),
            body: Some(flow_events(&node.block)),
        }));
        visit::visit_impl_item_fn(self, node);
    }

    #[verifier::external_body]
    fn visit_trait_item_fn(&mut self, node: &'syntax TraitItemFn) {
        self.met.push(Outline::Function(FunctionOutline {
            name: node.sig.ident.to_string(),
            first_line: node.span().start().line,
            last_line: node.span().end().line,
            signature_line: node.sig.span().start().line,
            parameters: node.sig.inputs.len(),
            body: node.default.as_ref().map(flow_events),
        }));
        visit::visit_trait_item_fn(self, node);
    }

    #[verifier::external_body]
    fn visit_item_struct(&mut self, node: &'syntax ItemStruct) {
        self.met.push(Outline::Type(TypeOutline {
            name: Some(node.ident.to_string()),
            first_line: node.span().start().line,
            last_line: node.span().end().line,
        }));
        visit::visit_item_struct(self, node);
    }

    #[verifier::external_body]
    fn visit_item_enum(&mut self, node: &'syntax ItemEnum) {
        self.met.push(Outline::Type(TypeOutline {
            name: Some(node.ident.to_string()),
            first_line: node.span().start().line,
            last_line: node.span().end().line,
        }));
        visit::visit_item_enum(self, node);
    }

    #[verifier::external_body]
    fn visit_item_trait(&mut self, node: &'syntax ItemTrait) {
        self.met.push(Outline::Type(TypeOutline {
            name: Some(node.ident.to_string()),
            first_line: node.span().start().line,
            last_line: node.span().end().line,
        }));
        visit::visit_item_trait(self, node);
    }

    #[verifier::external_body]
    fn visit_item_impl(&mut self, node: &'syntax ItemImpl) {
        self.met.push(Outline::Type(TypeOutline {
            name: None,
            first_line: node.span().start().line,
            last_line: node.span().end().line,
        }));
        visit::visit_item_impl(self, node);
    }
}

/// The functions and types that `syn` finds in a text, or the line, the column and
/// the message of its failure.
pub uninterp spec fn outlines_of(source: Seq<char>) -> Result<
    Seq<OutlineView>,
    (usize, usize, Seq<char>),
>;

/// `syn::parse_file` on a text, and `Visit::visit_file` on what it gives. The
/// result depends on the text alone: the same text has the same functions and
/// types, or fails in the same way. Positions are kept in 32 bits, so the text has
/// to be shorter than that; like memory, they are used up by all the texts that a
/// thread reads.
#[verifier::external_body]
pub(crate) fn outline(source: &str) -> (r: Result<Vec<Outline>, SyntaxFailure>)
    requires
        source@.len() < u32::MAX,
    ensures
        match r {
            Ok(v) => outlines_of(source@) == Ok::<Seq<OutlineView>, (usize, usize, Seq<char>)>(
                views(v@),
            ),
            Err(e) => outlines_of(source@) == Err::<Seq<OutlineView>, (usize, usize, Seq<char>)>(
                (e.line, e.column, e.message@),
            ),
        },
{
    match syn::parse_file(source) {
        Ok(file) => {
            let mut writer = OutlineWriter { met: Vec::new() };
            writer.visit_file(&file);
            Ok(writer.met)
        },
        Err(error) => Err(SyntaxFailure {
            line: error.span().start().line,
            column: error.span().start().column,
            message: error.to_string(),
        }),
    }
}

} // verus!
