//! The records of a project file: targets, their variables and their block
//! dictionaries, as they stand before any block is interpreted.

use vstd::prelude::*;
use crate::dict::entries_view;
use crate::dict::strings_view;
use crate::json::Json;
use crate::json::JsonView;

verus! {

/// What a procedure prototype or a procedure call says of the procedure.
#[derive(Debug)]
pub struct MutationInfo {
    pub argumentnames: Option<Vec<String>>,
    pub argumentids: Vec<String>,
    pub proccode: String,
}

/// The mathematical value of a [`MutationInfo`].
pub ghost struct MutationInfoView {
    pub argumentnames: Option<Seq<Seq<char>>>,
    pub argumentids: Seq<Seq<char>>,
    pub proccode: Seq<char>,
}

impl View for MutationInfo {
    type V = MutationInfoView;

    open spec fn view(&self) -> MutationInfoView {
        MutationInfoView {
            argumentnames: match self.argumentnames {
                Some(names) => Some(strings_view(names@)),
                None => None,
            },
            argumentids: strings_view(self.argumentids@),
            proccode: self.proccode@,
        }
    }
}

/// One entry of a block dictionary.
#[derive(Debug)]
pub struct BlockInfo {
    pub opcode: String,
    pub next: Option<String>,
    pub parent: Option<String>,
    /// Operand slots by name, in the order in which they are walked.
    pub inputs: Vec<(String, Json)>,
    /// Constant slots by name, in the order in which they are walked.
    pub fields: Vec<(String, Json)>,
    pub mutation: Option<MutationInfo>,
    pub shadow: bool,
    pub top_level: bool,
}

/// What the compiler reads of a [`BlockInfo`].
pub ghost struct BlockInfoView {
    pub opcode: Seq<char>,
    pub next: Option<Seq<char>>,
    pub inputs: Seq<(Seq<char>, JsonView)>,
    pub fields: Seq<(Seq<char>, JsonView)>,
    pub mutation: Option<MutationInfoView>,
    pub top_level: bool,
}

impl View for BlockInfo {
    type V = BlockInfoView;

    open spec fn view(&self) -> BlockInfoView {
        BlockInfoView {
            opcode: self.opcode@,
            next: match self.next {
                Some(id) => Some(id@),
                None => None,
            },
            inputs: entries_view(self.inputs@),
            fields: entries_view(self.fields@),
            mutation: match self.mutation {
                Some(m) => Some(m@),
                None => None,
            },
            top_level: self.top_level,
        }
    }
}

/// A block dictionary: block identifier and record, in the order in which
/// the dictionary is walked.
pub type Blocks = Vec<(String, BlockInfo)>;

/// The mathematical value of a block dictionary.
pub type BlocksView = Seq<(Seq<char>, BlockInfoView)>;

/// The variables of a target: identifier, then display name and initial
/// value, in the order in which they are walked.
pub type Variables = Vec<(String, (String, usize))>;

/// The identifiers of `variables`, in order.
pub open spec fn variable_ids(variables: Seq<(String, (String, usize))>) -> Seq<Seq<char>> {
    Seq::new(variables.len(), |i: int| variables[i].0@)
}

/// A sprite or the stage.
#[derive(Debug)]
pub struct TargetInfo {
    pub is_stage: bool,
    pub name: String,
    pub variables: Variables,
    pub lists: Json,
    pub broadcasts: Json,
    pub blocks: Blocks,
    pub comments: Json,
}

/// What the compiler reads of a [`TargetInfo`]: the identifiers of its
/// variables, and its block dictionary.
pub ghost struct TargetInfoView {
    pub variables: Seq<Seq<char>>,
    pub blocks: BlocksView,
}

impl View for TargetInfo {
    type V = TargetInfoView;

    open spec fn view(&self) -> TargetInfoView {
        TargetInfoView {
            variables: variable_ids(self.variables@),
            blocks: entries_view(self.blocks@),
        }
    }
}

/// A whole project file.
#[derive(Debug)]
pub struct ProjectInfo {
    pub targets: Vec<TargetInfo>,
    pub extensions: Vec<String>,
    pub meta: Json,
}

impl View for ProjectInfo {
    type V = Seq<TargetInfoView>;

    open spec fn view(&self) -> Seq<TargetInfoView> {
        Seq::new(self.targets@.len(), |i: int| self.targets@[i]@)
    }
}

} // verus!
