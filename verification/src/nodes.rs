//! The node definitions of the command-string and constrain families: what
//! each requires of its edges, how it estimates its output frame, and how it
//! is lowered into simpler nodes.

use vstd::prelude::*;
use crate::error::{
    ErrorKind, FlowError, LayoutError, Site, DECODE_WITH_PARENT, EDGES_NOT_AS_REQUIRED,
    NEED_COMMAND_STRING, NEED_CONSTRAIN, NO_IMAGE_SOURCE, PARENT_NOT_ESTIMABLE,
};
use crate::frame::{as_signed, as_unsigned, to_signed, to_unsigned, FrameEstimate, FrameInfo};
use crate::graph::{joins, lemma_first_parent_is_source, rewiring, EdgeKind, Graph, NodeIndex};
use crate::ops::{
    Command, DecodeRequest, DecoderCommand, DecoderTell, ExpandRequest, Node, NodeKind, NodeParams,
    SourceFrameInfo,
};
use crate::sizing::{constrain, fitted, Constraint};

verus! {

/// What a definition requires of the edges that enter a node.
#[derive(Clone, Copy, Debug, PartialEq, Eq, Structural)]
pub enum EdgesIn {
    NoInput,
    OneInput,
    OneOptionalInput,
    OneInputOneCanvas,
}

/// What a definition requires of the edges that leave a node.
#[derive(Clone, Copy, Debug, PartialEq, Eq, Structural)]
pub enum EdgesOut {
    NoOutput,
    Any,
}

/// Whether a node with this many input, canvas and outgoing edges has what
/// `required` asks for.
pub open spec fn edges_match(required: (EdgesIn, EdgesOut), inputs: nat, canvases: nat, outputs: nat) -> bool {
    &&& match required.0 {
        EdgesIn::NoInput => inputs == 0 && canvases == 0,
        EdgesIn::OneInput => inputs == 1 && canvases == 0,
        EdgesIn::OneOptionalInput => inputs <= 1 && canvases == 0,
        EdgesIn::OneInputOneCanvas => inputs == 1 && canvases == 1,
    }
    &&& match required.1 {
        EdgesOut::NoOutput => outputs == 0,
        EdgesOut::Any => true,
    }
}

/// Holds the edges around `ix` against what a definition requires. A node
/// whose edges do not match has invalid connections.
pub fn check_edges(graph: &Graph, ix: NodeIndex, required: (EdgesIn, EdgesOut)) -> (r: Result<
    (),
    FlowError,
>)
    ensures
        edges_match(
            required,
            graph.inputs_of(ix, EdgeKind::Input),
            graph.inputs_of(ix, EdgeKind::Canvas),
            graph.outputs_of(ix),
        ) ==> r == Ok::<(), FlowError>(()),
        !edges_match(
            required,
            graph.inputs_of(ix, EdgeKind::Input),
            graph.inputs_of(ix, EdgeKind::Canvas),
            graph.outputs_of(ix),
        ) ==> r is Err && r->Err_0.reads(
            ErrorKind::InvalidNodeConnections,
            EDGES_NOT_AS_REQUIRED@,
            Seq::empty(),
        ),
{
    let inputs = graph.count_inputs(ix, EdgeKind::Input);
    let canvases = graph.count_inputs(ix, EdgeKind::Canvas);
    let outputs = graph.count_outputs(ix);
    let inputs_fit = match required.0 {
        EdgesIn::NoInput => inputs == 0 && canvases == 0,
        EdgesIn::OneInput => inputs == 1 && canvases == 0,
        EdgesIn::OneOptionalInput => inputs <= 1 && canvases == 0,
        EdgesIn::OneInputOneCanvas => inputs == 1 && canvases == 1,
    };
    let outputs_fit = match required.1 {
        EdgesOut::NoOutput => outputs == 0,
        EdgesOut::Any => true,
    };
    if inputs_fit && outputs_fit {
        Ok(())
    } else {
        Err(FlowError::new(ErrorKind::InvalidNodeConnections, EDGES_NOT_AS_REQUIRED))
    }
}

/// The request that a command string with the parameters `params` makes of
/// the translation service once the frame `source` of its parent is known.
pub open spec fn request_of(params: NodeParams, source: FrameInfo) -> ExpandRequest
    recommends
        params is CommandString,
{
    ExpandRequest {
        command: Command::QueryString(params->CommandString_value),
        encode_id: params->CommandString_encode,
        source: SourceFrameInfo { w: source.w, h: source.h, fmt: source.fmt, original_mime: None },
    }
}

/// A node whose first input parent has a known frame is alive: an edge
/// enters it.
pub proof fn lemma_fed_node_is_alive(graph: &Graph, ix: NodeIndex)
    requires
        graph.wf(),
        graph.first_parent_frame(ix) is Some,
    ensures
        graph.contains(ix),
{
    lemma_first_parent_is_source(graph.links(), ix, EdgeKind::Input, 0);
    let i = choose|i: int|
        0 <= i < graph.links().len() && (#[trigger] graph.links()[i]).to == ix && graph.links()[i].kind
            == EdgeKind::Input && graph.links()[i].from == graph.first_parent(
            ix,
            EdgeKind::Input,
        ).unwrap();
    assert(joins(graph.slots(), graph.links()[i]));
}

/// Builds the request that the command string behind `ix` makes of the
/// translation service.
///
/// The parent's frame must be known, else the node's connections are
/// invalid; the node must carry a command string, else its parameters do
/// not match. The first of these is tested first.
pub fn get_expand(graph: &Graph, ix: NodeIndex) -> (r: Result<ExpandRequest, FlowError>)
    requires
        graph.wf(),
    ensures
        graph.first_parent_frame(ix) is None ==> r is Err && r->Err_0.reads(
            ErrorKind::InvalidNodeConnections,
            PARENT_NOT_ESTIMABLE@,
            Seq::empty(),
        ),
        graph.first_parent_frame(ix) is Some && !(graph.node(ix).params is CommandString) ==> r is Err
            && r->Err_0.reads(ErrorKind::NodeParamsMismatch, NEED_COMMAND_STRING@, Seq::empty()),
        graph.first_parent_frame(ix) is Some && graph.node(ix).params is CommandString ==> r == Ok::<
            ExpandRequest,
            FlowError,
        >(request_of(graph.node(ix).params, graph.first_parent_frame(ix).unwrap())),
{
    let input = match graph.first_parent_frame_info_some(ix) {
        Some(input) => input,
        None => {
            return Err(FlowError::new(ErrorKind::InvalidNodeConnections, PARENT_NOT_ESTIMABLE));
        },
    };
    proof {
        lemma_fed_node_is_alive(graph, ix);
    }
    match &graph.weight(ix).params {
        NodeParams::CommandString { kind, value, decode, encode } => Ok(
            ExpandRequest {
                command: Command::QueryString(value.clone()),
                encode_id: *encode,
                source: SourceFrameInfo { w: input.w, h: input.h, fmt: input.fmt, original_mime: None },
            },
        ),
        _ => Err(FlowError::new(ErrorKind::NodeParamsMismatch, NEED_COMMAND_STRING)),
    }
}

/// What estimating a settled command string calls for next.
#[derive(Debug, PartialEq, Eq)]
pub enum EstimatePlan {
    /// The estimate is settled; nothing outside has to be done.
    Settled(FrameEstimate),
    /// The translation service has to be asked which decode-time commands
    /// this request implies.
    AskDecodeCommands(ExpandRequest),
}

/// The deliveries that `commands` call for: each command in turn goes to
/// each of `decoders` in turn.
pub open spec fn tells_for(commands: Seq<DecoderCommand>, decoders: Seq<(i32, NodeIndex)>) -> Seq<
    DecoderTell,
>
    decreases commands.len(),
{
    if commands.len() == 0 {
        Seq::empty()
    } else {
        tells_for(commands.drop_last(), decoders) + decoders.map_values(telling(commands.last()))
    }
}

/// The delivery of `command` to a decoder, as a function of the decoder.
pub open spec fn telling(command: DecoderCommand) -> spec_fn((i32, NodeIndex)) -> DecoderTell {
    |d: (i32, NodeIndex)| DecoderTell { io_id: d.0, command }
}

/// The nodes that stand for `steps`, each under its usual definition.
pub open spec fn nodes_of(steps: Seq<NodeParams>) -> Seq<Node> {
    steps.map_values(|p: NodeParams| Node::spec_from(p))
}

/// Builds the nodes that stand for `steps`.
pub fn nodes_from(steps: Vec<NodeParams>) -> (r: Vec<Node>)
    ensures
        r@ == nodes_of(steps@),
{
    let mut nodes: Vec<Node> = Vec::new();
    let mut i: usize = 0;
    while i < steps.len()
        invariant
            i <= steps.len(),
            nodes@ == nodes_of(steps@.take(i as int)),
        decreases steps.len() - i,
    {
        nodes.push(Node::from(steps[i].clone()));
        proof {
            assert(nodes@ =~= nodes_of(steps@.take(i as int + 1)));
        }
        i += 1;
    }
    proof {
        steps@.lemma_take_len();
    }
    nodes
}

/// The definition of a command string whose source has been settled: it has
/// exactly one input, and is lowered into the primitive steps that the
/// translation service makes of the command.
#[derive(Debug, Clone, Copy)]
pub struct CommandStringPartiallyExpandedDef;

impl CommandStringPartiallyExpandedDef {
    /// The name by which the definition is selected.
    pub fn fqn(&self) -> (r: &'static str)
        ensures
            r@ == "imazen.expanding_command_string"@,
    {
        "imazen.expanding_command_string"
    }

    /// Exactly one input; any number of outputs.
    pub fn edges_required(&self, p: &NodeParams) -> (r: Result<(EdgesIn, EdgesOut), FlowError>)
        ensures
            r == Ok::<(EdgesIn, EdgesOut), FlowError>((EdgesIn::OneInput, EdgesOut::Any)),
    {
        Ok((EdgesIn::OneInput, EdgesOut::Any))
    }

    /// Every parameter payload is accepted.
    pub fn validate_params(&self, p: &NodeParams) -> (r: Result<(), FlowError>)
        ensures
            r == Ok::<(), FlowError>(()),
    {
        Ok(())
    }

    /// The definition lowers its nodes.
    pub fn can_expand(&self) -> (r: bool)
        ensures
            r,
    {
        true
    }

    /// Begins the estimation of the node behind `ix`.
    ///
    /// A node whose estimate is invalid reports `Impossible` for now. Any
    /// other node needs the decode-time commands that its command implies,
    /// and the result is the request to put to the translation service; it
    /// fails as `get_expand` does, with this point recorded.
    pub fn estimate(&self, graph: &Graph, ix: NodeIndex) -> (r: Result<EstimatePlan, FlowError>)
        requires
            graph.wf(),
            graph.contains(ix),
        ensures
            graph.node(ix).frame_est == FrameEstimate::InvalidateGraph ==> r == Ok::<
                EstimatePlan,
                FlowError,
            >(EstimatePlan::Settled(FrameEstimate::Impossible)),
            graph.node(ix).frame_est != FrameEstimate::InvalidateGraph && graph.first_parent_frame(ix)
                is None ==> r is Err && r->Err_0.reads(
                ErrorKind::InvalidNodeConnections,
                PARENT_NOT_ESTIMABLE@,
                seq![Site::Estimate],
            ),
            graph.node(ix).frame_est != FrameEstimate::InvalidateGraph && graph.first_parent_frame(ix)
                is Some && !(graph.node(ix).params is CommandString) ==> r is Err && r->Err_0.reads(
                ErrorKind::NodeParamsMismatch,
                NEED_COMMAND_STRING@,
                seq![Site::Estimate],
            ),
            graph.node(ix).frame_est != FrameEstimate::InvalidateGraph && graph.first_parent_frame(ix)
                is Some && graph.node(ix).params is CommandString ==> r == Ok::<
                EstimatePlan,
                FlowError,
            >(
                EstimatePlan::AskDecodeCommands(
                    request_of(graph.node(ix).params, graph.first_parent_frame(ix).unwrap()),
                ),
            ),
    {
        let old_estimate = graph.weight(ix).frame_est;
        if old_estimate == FrameEstimate::InvalidateGraph {
            Ok(EstimatePlan::Settled(FrameEstimate::Impossible))
        } else {
            match get_expand(graph, ix) {
                Ok(request) => Ok(EstimatePlan::AskDecodeCommands(request)),
                Err(e) => {
                    let e = e.at(Site::Estimate);
                    proof {
                        assert(e.at@ =~= seq![Site::Estimate]);
                    }
                    Err(e)
                },
            }
        }
    }

    /// Turns the translation service's answer into the deliveries to make:
    /// each command, in order, to every decoder upstream of the node, by
    /// ascending handle. No commands call for no delivery; a failure of the
    /// service is handed on as a layout error.
    pub fn decoder_tells(
        &self,
        graph: &Graph,
        ix: NodeIndex,
        answer: Result<Option<Vec<DecoderCommand>>, LayoutError>,
    ) -> (r: Result<Vec<DecoderTell>, FlowError>)
        requires
            graph.wf(),
        ensures
            match answer {
                Err(e) => r is Err && r->Err_0.reads(
                    ErrorKind::LayoutError,
                    e.detail@,
                    seq![Site::DecodeCommands],
                ),
                Ok(None) => r is Ok && r->Ok_0@ == Seq::<DecoderTell>::empty(),
                Ok(Some(commands)) => r is Ok && r->Ok_0@ == tells_for(
                    commands@,
                    graph.decoders_upstream(ix),
                ),
            },
    {
        match answer {
            Err(e) => {
                let e = FlowError::from_layout(e).at(Site::DecodeCommands);
                proof {
                    assert(e.at@ =~= seq![Site::DecodeCommands]);
                }
                Err(e)
            },
            Ok(None) => Ok(Vec::new()),
            Ok(Some(commands)) => {
                let decoders = graph.get_decoder_io_ids_and_indexes(ix);
                let mut tells: Vec<DecoderTell> = Vec::new();
                let mut i: usize = 0;
                while i < commands.len()
                    invariant
                        i <= commands.len(),
                        decoders@ == graph.decoders_upstream(ix),
                        tells@ == tells_for(commands@.take(i as int), decoders@),
                    decreases commands.len() - i,
                {
                    let command = commands[i];
                    let ghost before = tells@;
                    let mut j: usize = 0;
                    while j < decoders.len()
                        invariant
                            j <= decoders.len(),
                            command == commands@[i as int],
                            tells@ == before + decoders@.take(j as int).map_values(telling(command)),
                        decreases decoders.len() - j,
                    {
                        tells.push(DecoderTell { io_id: decoders[j].0, command });
                        proof {
                            assert(tells@ =~= before + decoders@.take(j as int + 1).map_values(
                                telling(command),
                            ));
                        }
                        j += 1;
                    }
                    proof {
                        decoders@.lemma_take_len();
                        let next = commands@.take(i as int + 1);
                        assert(next.drop_last() =~= commands@.take(i as int));
                        assert(next.last() == command);
                    }
                    i += 1;
                }
                proof {
                    commands@.lemma_take_len();
                }
                Ok(tells)
            },
        }
    }

    /// Ends the estimation once the deliveries have been made. The real
    /// output is only known after expansion, so the estimate is invalid
    /// again; the first delivery that failed is handed on with this point
    /// recorded.
    pub fn estimate_after_tells(&self, delivery: Result<(), FlowError>) -> (r: Result<
        FrameEstimate,
        FlowError,
    >)
        ensures
            match delivery {
                Ok(_) => r == Ok::<FrameEstimate, FlowError>(FrameEstimate::InvalidateGraph),
                Err(e) => r is Err && r->Err_0.reads(e.kind, e.message@, e.at@.push(Site::TellDecoder)),
            },
    {
        match delivery {
            Ok(_) => Ok(FrameEstimate::InvalidateGraph),
            Err(e) => Err(e.at(Site::TellDecoder)),
        }
    }

    /// The request to put to the translation service before the node behind
    /// `ix` is expanded. It fails as `get_expand` does, with this point
    /// recorded.
    pub fn expand_request(&self, graph: &Graph, ix: NodeIndex) -> (r: Result<ExpandRequest, FlowError>)
        requires
            graph.wf(),
        ensures
            graph.first_parent_frame(ix) is None ==> r is Err && r->Err_0.reads(
                ErrorKind::InvalidNodeConnections,
                PARENT_NOT_ESTIMABLE@,
                seq![Site::Expand],
            ),
            graph.first_parent_frame(ix) is Some && !(graph.node(ix).params is CommandString) ==> r
                is Err && r->Err_0.reads(
                ErrorKind::NodeParamsMismatch,
                NEED_COMMAND_STRING@,
                seq![Site::Expand],
            ),
            graph.first_parent_frame(ix) is Some && graph.node(ix).params is CommandString ==> r
                == Ok::<ExpandRequest, FlowError>(
                request_of(graph.node(ix).params, graph.first_parent_frame(ix).unwrap()),
            ),
    {
        match get_expand(graph, ix) {
            Ok(request) => Ok(request),
            Err(e) => {
                let e = e.at(Site::Expand);
                proof {
                    assert(e.at@ =~= seq![Site::Expand]);
                }
                Err(e)
            },
        }
    }

    /// Replaces the node behind `ix` by the primitive steps that the
    /// translation service answered with, in order.
    ///
    /// Where no request could have been made of the service the node fails
    /// as `expand_request` does; where the service failed, its failure is
    /// handed on as a layout error. Either way the graph is left as it was.
    pub fn expand(
        &self,
        graph: &mut Graph,
        ix: NodeIndex,
        answer: Result<Vec<NodeParams>, LayoutError>,
    ) -> (r: Result<(), FlowError>)
        requires
            old(graph).wf(),
            answer is Ok ==> old(graph).slots().len() + answer->Ok_0@.len() <= usize::MAX,
        ensures
            final(graph).wf(),
            old(graph).first_parent_frame(ix) is None ==> r is Err && r->Err_0.reads(
                ErrorKind::InvalidNodeConnections,
                PARENT_NOT_ESTIMABLE@,
                seq![Site::Expand],
            ),
            old(graph).first_parent_frame(ix) is Some && !(old(graph).node(ix).params
                is CommandString) ==> r is Err && r->Err_0.reads(
                ErrorKind::NodeParamsMismatch,
                NEED_COMMAND_STRING@,
                seq![Site::Expand],
            ),
            old(graph).first_parent_frame(ix) is Some && old(graph).node(ix).params is CommandString
                ==> match answer {
                Err(e) => r is Err && r->Err_0.reads(
                    ErrorKind::LayoutError,
                    e.detail@,
                    seq![Site::ExpandSteps],
                ),
                Ok(steps) => r is Ok && final(graph).slots() == old(graph).replaced_slots(
                    ix,
                    nodes_of(steps@),
                ) && final(graph).links() == old(graph).replaced_links(ix, steps@.len()),
            },
            r is Err ==> final(graph).slots() == old(graph).slots() && final(graph).links() == old(
                graph,
            ).links(),
    {
        match self.expand_request(graph, ix) {
            Err(e) => Err(e),
            Ok(_) => match answer {
                Err(e) => {
                    let e = FlowError::from_layout(e).at(Site::ExpandSteps);
                    proof {
                        assert(e.at@ =~= seq![Site::ExpandSteps]);
                    }
                    Err(e)
                },
                Ok(steps) => {
                    proof {
                        lemma_fed_node_is_alive(graph, ix);
                    }
                    let nodes = nodes_from(steps);
                    graph.replace_node(ix, nodes);
                    Ok(())
                },
            },
        }
    }
}

/// Whether a command string with these parameters, in this place, needs a
/// decode node of its own: it names a decoder and has no parent.
pub open spec fn needs_decoder(graph: &Graph, ix: NodeIndex) -> bool {
    &&& graph.node(ix).params is CommandString
    &&& graph.node(ix).params->CommandString_decode is Some
    &&& graph.first_parent(ix, EdgeKind::Input) is None
}

/// What is asked of the translation service for a command string that
/// names a decoder: the command, and the decoder's IO identifier.
pub open spec fn decode_request_of(params: NodeParams) -> DecodeRequest
    recommends
        params is CommandString,
        params->CommandString_decode is Some,
{
    DecodeRequest {
        command: Command::QueryString(params->CommandString_value),
        decode_id: params->CommandString_decode.unwrap(),
    }
}

/// The node that a command string leaves in its place once its source is
/// settled: the same parameters under the expanding definition.
pub open spec fn expanding(params: NodeParams) -> Node {
    Node::spec_n(NodeKind::ExpandingCommandString, params)
}

/// The definition of a command string as the user wrote it. It takes at
/// most one input: it is either fed by a parent or names the decoder that
/// it reads from, never both and never neither.
#[derive(Debug, Clone, Copy)]
pub struct CommandStringDef;

impl CommandStringDef {
    /// The name by which the definition is selected.
    pub fn fqn(&self) -> (r: &'static str)
        ensures
            r@ == "imazen.command_string"@,
    {
        "imazen.command_string"
    }

    /// What comes out of a command string cannot be told before it has been
    /// expanded.
    pub fn estimate(&self, graph: &Graph, ix: NodeIndex) -> (r: Result<FrameEstimate, FlowError>)
        ensures
            r == Ok::<FrameEstimate, FlowError>(FrameEstimate::Impossible),
    {
        Ok(FrameEstimate::Impossible)
    }

    /// At most one input; any number of outputs.
    pub fn edges_required(&self, p: &NodeParams) -> (r: Result<(EdgesIn, EdgesOut), FlowError>)
        ensures
            r == Ok::<(EdgesIn, EdgesOut), FlowError>((EdgesIn::OneOptionalInput, EdgesOut::Any)),
    {
        Ok((EdgesIn::OneOptionalInput, EdgesOut::Any))
    }

    /// Every parameter payload is accepted.
    pub fn validate_params(&self, p: &NodeParams) -> (r: Result<(), FlowError>)
        ensures
            r == Ok::<(), FlowError>(()),
    {
        Ok(())
    }

    /// The definition lowers its nodes.
    pub fn can_expand(&self) -> (r: bool)
        ensures
            r,
    {
        true
    }

    /// Decides how the node behind `ix` is to be expanded, without touching
    /// the graph.
    ///
    /// A node that names a decoder must have no parent, and needs a decode
    /// node from the translation service: the result is the request to make.
    /// A node that names none must have a parent, and needs nothing. Both
    /// other combinations are invalid parameters.
    pub fn decode_request(&self, graph: &Graph, ix: NodeIndex) -> (r: Result<
        Option<DecodeRequest>,
        FlowError,
    >)
        requires
            graph.contains(ix),
        ensures
            !(graph.node(ix).params is CommandString) ==> r is Err && r->Err_0.reads(
                ErrorKind::NodeParamsMismatch,
                NEED_COMMAND_STRING@,
                Seq::empty(),
            ),
            graph.node(ix).params is CommandString ==> match (
                graph.node(ix).params->CommandString_decode,
                graph.first_parent(ix, EdgeKind::Input),
            ) {
                (Some(_), Some(_)) => r is Err && r->Err_0.reads(
                    ErrorKind::InvalidNodeParams,
                    DECODE_WITH_PARENT@,
                    Seq::empty(),
                ),
                (Some(_), None) => r == Ok::<Option<DecodeRequest>, FlowError>(
                    Some(decode_request_of(graph.node(ix).params)),
                ),
                (None, None) => r is Err && r->Err_0.reads(
                    ErrorKind::InvalidNodeParams,
                    NO_IMAGE_SOURCE@,
                    Seq::empty(),
                ),
                (None, Some(_)) => r == Ok::<Option<DecodeRequest>, FlowError>(None),
            },
    {
        let has_parent = graph.first_parent_of_kind(ix, EdgeKind::Input).is_some();
        match &graph.weight(ix).params {
            NodeParams::CommandString { kind, value, decode, encode } => {
                if let Some(d_id) = decode {
                    if has_parent {
                        return Err(FlowError::new(ErrorKind::InvalidNodeParams, DECODE_WITH_PARENT));
                    }
                    Ok(Some(DecodeRequest { command: Command::QueryString(value.clone()), decode_id: *d_id }))
                } else {
                    if !has_parent {
                        return Err(FlowError::new(ErrorKind::InvalidNodeParams, NO_IMAGE_SOURCE));
                    }
                    Ok(None)
                }
            },
            _ => Err(FlowError::new(ErrorKind::NodeParamsMismatch, NEED_COMMAND_STRING)),
        }
    }

    /// Expands the node behind `ix`.
    ///
    /// A node that names a decoder and has no parent gives way to the decode
    /// node `decode_node`, which the translation service made for it,
    /// followed by the command string under the expanding definition. A node
    /// that names no decoder and has a parent gives way to the command string
    /// under the expanding definition alone. Every other node fails as
    /// `decode_request` does, and the graph is left as it was.
    pub fn expand(&self, graph: &mut Graph, ix: NodeIndex, decode_node: Option<NodeParams>) -> (r:
        Result<(), FlowError>)
        requires
            old(graph).wf(),
            old(graph).contains(ix),
            old(graph).slots().len() + 2 <= usize::MAX,
            needs_decoder(old(graph), ix) ==> decode_node is Some,
        ensures
            final(graph).wf(),
            !(old(graph).node(ix).params is CommandString) ==> r is Err && r->Err_0.reads(
                ErrorKind::NodeParamsMismatch,
                NEED_COMMAND_STRING@,
                Seq::empty(),
            ),
            old(graph).node(ix).params is CommandString ==> match (
                old(graph).node(ix).params->CommandString_decode,
                old(graph).first_parent(ix, EdgeKind::Input),
            ) {
                (Some(_), Some(_)) => r is Err && r->Err_0.reads(
                    ErrorKind::InvalidNodeParams,
                    DECODE_WITH_PARENT@,
                    Seq::empty(),
                ),
                (Some(_), None) => r is Ok && final(graph).slots() == old(graph).replaced_slots(
                    ix,
                    seq![Node::spec_from(decode_node.unwrap()), expanding(old(graph).node(ix).params)],
                ) && final(graph).links() == old(graph).replaced_links(ix, 2),
                (None, None) => r is Err && r->Err_0.reads(
                    ErrorKind::InvalidNodeParams,
                    NO_IMAGE_SOURCE@,
                    Seq::empty(),
                ),
                (None, Some(_)) => r is Ok && final(graph).slots() == old(graph).replaced_slots(
                    ix,
                    seq![expanding(old(graph).node(ix).params)],
                ) && final(graph).links() == old(graph).replaced_links(ix, 1),
            },
            r is Err ==> final(graph).slots() == old(graph).slots() && final(graph).links() == old(
                graph,
            ).links(),
    {
        let request = match self.decode_request(graph, ix) {
            Ok(request) => request,
            Err(e) => {
                return Err(e);
            },
        };
        let params = graph.weight(ix).params.clone();
        let mut with: Vec<Node> = Vec::new();
        match request {
            Some(_) => {
                with.push(Node::from(decode_node.unwrap()));
                with.push(Node::n(NodeKind::ExpandingCommandString, params));
                proof {
                    assert(with@ =~= seq![
                        Node::spec_from(decode_node.unwrap()),
                        expanding(old(graph).node(ix).params),
                    ]);
                }
            },
            None => {
                with.push(Node::n(NodeKind::ExpandingCommandString, params));
                proof {
                    assert(with@ =~= seq![expanding(old(graph).node(ix).params)]);
                }
            },
        }
        graph.replace_node(ix, with);
        Ok(())
    }
}

/// The frame `input` after it has been fitted into the box of `constraint`.
/// Its sides are read and written as signed dimensions; its pixel format
/// stays.
pub open spec fn constrained_frame(constraint: Constraint, input: FrameInfo) -> FrameInfo {
    let size = fitted(
        as_unsigned(input.w),
        as_unsigned(input.h),
        constraint.width(),
        constraint.height(),
    );
    FrameInfo {
        w: as_signed(size.0 as u32) as i32,
        h: as_signed(size.1 as u32) as i32,
        fmt: input.fmt,
    }
}

/// The resampling step that brings a frame to `size` under `constraint`:
/// the filters are left open, the constraint's hints are handed on.
pub open spec fn resample_for(constraint: Constraint, size: (int, int)) -> NodeParams {
    NodeParams::Resample2D {
        w: size.0 as u32,
        h: size.1 as u32,
        down_filter: None,
        up_filter: None,
        scaling_colorspace: None,
        hints: constraint.hints(),
    }
}

/// The node that takes the place of a constrain node whose parent's frame
/// is `parent`: a resampling step to the fitted size, not estimated yet.
pub open spec fn resample_node(constraint: Constraint, parent: FrameInfo) -> Node {
    Node::spec_n(
        NodeKind::Scale,
        resample_for(
            constraint,
            fitted(
                as_unsigned(parent.w),
                as_unsigned(parent.h),
                constraint.width(),
                constraint.height(),
            ),
        ),
    )
}

/// The definition of the constrain operation: one input, whose frame is
/// fitted into a box without ever being enlarged.
#[derive(Debug, Clone, Copy)]
pub struct ConstrainDef;

impl ConstrainDef {
    /// The definition is one of those that expand from a single input.
    pub fn as_one_input_expand(&self) -> (r: Option<&ConstrainDef>)
        ensures
            r == Some(self),
    {
        Some(self)
    }

    /// The name by which the definition is selected.
    pub fn fqn(&self) -> (r: &'static str)
        ensures
            r@ == "imazen.constrain"@,
    {
        "imazen.constrain"
    }

    /// Estimates the output of a constrain node from the estimate of its
    /// input: a known frame is fitted into the box and keeps its pixel
    /// format; any other estimate is handed on as it is.
    pub fn estimate(&self, params: &NodeParams, input: FrameEstimate) -> (r: Result<
        FrameEstimate,
        FlowError,
    >)
        ensures
            !(*params is Constrain) ==> r is Err && r->Err_0.reads(
                ErrorKind::NodeParamsMismatch,
                NEED_CONSTRAIN@,
                Seq::empty(),
            ),
            *params is Constrain ==> r == Ok::<FrameEstimate, FlowError>(
                match input {
                    FrameEstimate::Known(info) => FrameEstimate::Known(
                        constrained_frame(params->Constrain_0, info),
                    ),
                    other => other,
                },
            ),
            *params is Constrain && input is Known && input->Known_0.w >= 0 && input->Known_0.h >= 0
                ==> r is Ok && r->Ok_0 is Known && 0 <= r->Ok_0->Known_0.w <= input->Known_0.w && 0
                <= r->Ok_0->Known_0.h <= input->Known_0.h,
    {
        match params {
            NodeParams::Constrain(constraint) => match input {
                FrameEstimate::Known(info) => {
                    let (w, h, _) = constrain(to_unsigned(info.w), to_unsigned(info.h), *constraint);
                    Ok(FrameEstimate::Known(FrameInfo { w: to_signed(w), h: to_signed(h), fmt: info.fmt }))
                },
                other => Ok(other),
            },
            _ => Err(FlowError::new(ErrorKind::NodeParamsMismatch, NEED_CONSTRAIN)),
        }
    }

    /// Expands the constrain node behind `ix`, whose parent's frame is
    /// `parent`: a resampling node with the fitted size takes its place and
    /// its edges. With other parameters the graph is left as it was.
    pub fn expand(&self, graph: &mut Graph, ix: NodeIndex, params: NodeParams, parent: FrameInfo) -> (r:
        Result<(), FlowError>)
        requires
            old(graph).wf(),
            old(graph).contains(ix),
            old(graph).slots().len() < usize::MAX,
        ensures
            final(graph).wf(),
            !(params is Constrain) ==> r is Err && r->Err_0.reads(
                ErrorKind::NodeParamsMismatch,
                NEED_CONSTRAIN@,
                Seq::empty(),
            ) && final(graph).slots() == old(graph).slots() && final(graph).links() == old(
                graph,
            ).links(),
            params is Constrain ==> r is Ok && final(graph).slots() == old(graph).slots().push(
                Some(resample_node(params->Constrain_0, parent)),
            ).update(ix as int, None) && final(graph).links() == old(graph).links().map_values(
                rewiring(ix, old(graph).slots().len() as usize, old(graph).slots().len() as usize),
            ),
    {
        match params {
            NodeParams::Constrain(constraint) => {
                let input_w = to_unsigned(parent.w);
                let input_h = to_unsigned(parent.h);
                let (new_w, new_h, hints_val) = constrain(input_w, input_h, constraint);
                let scale2d_params = NodeParams::Resample2D {
                    w: new_w,
                    h: new_h,
                    up_filter: None,
                    down_filter: None,
                    scaling_colorspace: None,
                    hints: hints_val,
                };
                let scale2d = graph.add_node(Node::n(NodeKind::Scale, scale2d_params));
                graph.replace_node_with_existing(ix, scale2d);
                Ok(())
            },
            _ => Err(FlowError::new(ErrorKind::NodeParamsMismatch, NEED_CONSTRAIN)),
        }
    }
}

/// Expansion keeps what estimation promised: the resampling step that a
/// constrain node is lowered into produces the very size that the node was
/// estimated to have.
pub proof fn lemma_expansion_agrees_with_estimate(constraint: Constraint, parent: FrameInfo)
    ensures
        ({
            let size = fitted(
                as_unsigned(parent.w),
                as_unsigned(parent.h),
                constraint.width(),
                constraint.height(),
            );
            let step = resample_for(constraint, size);
            let estimate = constrained_frame(constraint, parent);
            &&& step is Resample2D
            &&& as_signed(step->Resample2D_w) == estimate.w
            &&& as_signed(step->Resample2D_h) == estimate.h
            &&& estimate.fmt == parent.fmt
            &&& step->Resample2D_hints == constraint.hints()
        }),
{
    crate::sizing::lemma_fitted_shrinks(
        as_unsigned(parent.w),
        as_unsigned(parent.h),
        constraint.width(),
        constraint.height(),
    );
}

} // verus!
