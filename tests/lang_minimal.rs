use interaction_diagram_io::conversion::{
    fold_associative_operands_recursively, from_io_repr, to_io_repr, FromInteractionTermToInternalRepresentation,
    FromInternalRepresentationToInteractionTerm,
};
use interaction_diagram_io::internal_representation::{
    CommonIoInteractionInterface, InteractionInternalRepresentation, InteractionOperatorRepresentation,
};
use interaction_diagram_io::parser::{
    parse_interaction, ContextAwareInteractionParser, DelimitedInteractionLanguageParser, GenericBroadcastParser,
};
use interaction_diagram_io::printer::{print_interaction, ContextAwareInteractionPrinter};
use interaction_diagram_io::context::{
    extract_drawing_information_in_context, ContextAwareInteractionDrawingInstructionsExtractor,
};
use interaction_diagram_io::leaf::{
    DrawableBroadcastLeafPattern, DrawableBroadcastLeafPatternOrigin, MeasuredText, PrePostAmbleDrawableActionItem,
    TargetLifelineBroadcastDrawInstruction,
};
use interaction_diagram_io::operator::{DrawableOperator, DrawableOperatorKind};
use interaction_diagram_io::text::{chars_of, match_tag, parse_element_of_preexisting_vec_and_return_index};

#[derive(Clone, PartialEq, Debug)]
pub struct GeneralContext {
    pub lf_names: Vec<String>,
    pub ms_names: Vec<String>,
}

#[derive(Clone, PartialEq, Debug, Eq, PartialOrd, Ord, Hash)]
pub enum MinimalActionKind {
    Emission,
    Reception,
}

#[derive(Clone, PartialEq, Debug, Eq, PartialOrd, Ord, Hash)]
pub struct MinimalAction {
    pub lf_id: usize,
    pub ms_id: usize,
    pub kind: MinimalActionKind,
}

impl MinimalAction {
    pub fn new(lf_id: usize, ms_id: usize, kind: MinimalActionKind) -> MinimalAction {
        MinimalAction { lf_id, ms_id, kind }
    }

    pub fn to_pattern(&self) -> MinimalLeafPattern {
        let (origin_lf_id, targets) = match &self.kind {
            MinimalActionKind::Emission => (Some(self.lf_id), vec![]),
            MinimalActionKind::Reception => (None, vec![self.lf_id]),
        };
        MinimalLeafPattern::BROADCAST(MinimalBroadcastLeafPattern::new(origin_lf_id, self.ms_id, targets))
    }
}

#[derive(Clone, PartialEq, Eq, PartialOrd, Ord, Hash)]
pub enum MinimalInteraction {
    Empty,
    Action(MinimalAction),
    Strict(Box<MinimalInteraction>, Box<MinimalInteraction>),
    WeakSeq(Box<MinimalInteraction>, Box<MinimalInteraction>),
    Alt(Box<MinimalInteraction>, Box<MinimalInteraction>),
    Par(Box<MinimalInteraction>, Box<MinimalInteraction>),
    Loop(Box<MinimalInteraction>),
}

#[derive(Debug, Clone)]
pub struct MinimalLangCioII {}

#[derive(Debug, Clone)]
pub enum MinimalLeafPattern {
    EMPTY,
    BROADCAST(MinimalBroadcastLeafPattern),
}

#[derive(Debug, Clone)]
pub struct MinimalBroadcastLeafPattern {
    pub origin_lf_id: Option<usize>,
    pub msg_id: usize,
    pub targets: Vec<usize>,
}

impl MinimalBroadcastLeafPattern {
    pub fn new(origin_lf_id: Option<usize>, msg_id: usize, targets: Vec<usize>) -> Self {
        Self { origin_lf_id, msg_id, targets }
    }
}

#[derive(Clone, PartialEq, Eq)]
pub enum MinimalOperators {
    Strict,
    WeakSeq,
    Alt,
    Par,
    Loop,
}

impl MinimalOperators {
    pub fn as_lowercase_string(&self) -> String {
        match self {
            MinimalOperators::Alt => "alt",
            MinimalOperators::Strict => "strict",
            MinimalOperators::WeakSeq => "seq",
            MinimalOperators::Par => "par",
            MinimalOperators::Loop => "loop",
        }
        .to_owned()
    }
}

// the language writes weak sequencing as `seq`
impl std::fmt::Debug for MinimalOperators {
    fn fmt(&self, f: &mut std::fmt::Formatter<'_>) -> std::fmt::Result {
        f.write_str(match self {
            MinimalOperators::Strict => "Strict",
            MinimalOperators::WeakSeq => "Seq",
            MinimalOperators::Alt => "Alt",
            MinimalOperators::Par => "Par",
            MinimalOperators::Loop => "Loop",
        })
    }
}

impl std::fmt::Debug for MinimalInteraction {
    fn fmt(&self, f: &mut std::fmt::Formatter<'_>) -> std::fmt::Result {
        match self {
            MinimalInteraction::Empty => f.write_str("Empty"),
            MinimalInteraction::Action(a) => f.debug_tuple("Action").field(a).finish(),
            MinimalInteraction::Strict(i1, i2) => f.debug_tuple("Strict").field(i1).field(i2).finish(),
            MinimalInteraction::WeakSeq(i1, i2) => f.debug_tuple("Seq").field(i1).field(i2).finish(),
            MinimalInteraction::Alt(i1, i2) => f.debug_tuple("Alt").field(i1).field(i2).finish(),
            MinimalInteraction::Par(i1, i2) => f.debug_tuple("Par").field(i1).field(i2).finish(),
            MinimalInteraction::Loop(i1) => f.debug_tuple("Loop").field(i1).finish(),
        }
    }
}

impl InteractionOperatorRepresentation for MinimalOperators {
    fn arity(&self) -> usize {
        match self {
            MinimalOperators::Loop => 1,
            _ => 2,
        }
    }

    fn is_associative(&self) -> bool {
        !matches!(self, MinimalOperators::Loop)
    }
}

impl CommonIoInteractionInterface for MinimalLangCioII {
    type InteractionLeafPatternType = MinimalLeafPattern;
    type InteractionOperatorType = MinimalOperators;
}

impl FromInteractionTermToInternalRepresentation<MinimalLangCioII> for MinimalInteraction {
    fn get_subinteractions(&self) -> Vec<&Self> {
        match self {
            MinimalInteraction::Strict(i1, i2)
            | MinimalInteraction::WeakSeq(i1, i2)
            | MinimalInteraction::Alt(i1, i2)
            | MinimalInteraction::Par(i1, i2) => vec![&**i1, &**i2],
            MinimalInteraction::Loop(i1) => vec![&**i1],
            MinimalInteraction::Empty | MinimalInteraction::Action(_) => vec![],
        }
    }

    fn get_operator_at_root(&self) -> Option<MinimalOperators> {
        match self {
            MinimalInteraction::Strict(_, _) => Some(MinimalOperators::Strict),
            MinimalInteraction::WeakSeq(_, _) => Some(MinimalOperators::WeakSeq),
            MinimalInteraction::Alt(_, _) => Some(MinimalOperators::Alt),
            MinimalInteraction::Par(_, _) => Some(MinimalOperators::Par),
            MinimalInteraction::Loop(_) => Some(MinimalOperators::Loop),
            _ => None,
        }
    }

    fn identify_pattern_at_interaction_leaf(&self) -> Option<MinimalLeafPattern> {
        match self {
            MinimalInteraction::Empty => Some(MinimalLeafPattern::EMPTY),
            MinimalInteraction::Action(act) => Some(act.to_pattern()),
            _ => None,
        }
    }

    fn merge_patterns_under_operator_if_possible(
        parent_op: &MinimalOperators,
        first_pattern: &MinimalLeafPattern,
        second_pattern: &MinimalLeafPattern,
    ) -> Option<MinimalLeafPattern> {
        match (first_pattern, second_pattern) {
            (MinimalLeafPattern::BROADCAST(b1), MinimalLeafPattern::BROADCAST(b2)) => match parent_op {
                MinimalOperators::Strict => {
                    if b1.msg_id == b2.msg_id
                        && b1.origin_lf_id.is_some()
                        && b2.origin_lf_id.is_none()
                        && b2.targets.iter().all(|b2_tar| !b1.targets.contains(b2_tar))
                    {
                        let mut new_targs = b1.targets.clone();
                        new_targs.extend(b2.targets.iter().cloned());
                        Some(MinimalLeafPattern::BROADCAST(MinimalBroadcastLeafPattern::new(
                            b1.origin_lf_id,
                            b1.msg_id,
                            new_targs,
                        )))
                    } else {
                        None
                    }
                }
                MinimalOperators::WeakSeq => {
                    if b1.msg_id == b2.msg_id {
                        match (b1.origin_lf_id, b2.origin_lf_id) {
                            (None, None) => {
                                let mut new_targs = b1.targets.clone();
                                new_targs.extend(b2.targets.iter().cloned());
                                Some(MinimalLeafPattern::BROADCAST(MinimalBroadcastLeafPattern::new(
                                    b1.origin_lf_id,
                                    b1.msg_id,
                                    new_targs,
                                )))
                            }
                            (Some(orig_lf), None) => {
                                if b1.targets.is_empty() && b2.targets == vec![orig_lf] {
                                    Some(MinimalLeafPattern::BROADCAST(MinimalBroadcastLeafPattern::new(
                                        b1.origin_lf_id,
                                        b1.msg_id,
                                        b2.targets.clone(),
                                    )))
                                } else {
                                    None
                                }
                            }
                            (_, _) => None,
                        }
                    } else {
                        None
                    }
                }
                _ => None,
            },
            (_, _) => None,
        }
    }
}

impl FromInternalRepresentationToInteractionTerm<MinimalLangCioII> for MinimalInteraction {
    fn instantiate_interaction_under_operator(operator: &MinimalOperators, sub_ints: &mut Vec<Self>) -> Option<Self> {
        if operator == &MinimalOperators::Loop {
            let i1 = sub_ints.pop().unwrap();
            Some(MinimalInteraction::Loop(Box::new(i1)))
        } else {
            let i2 = sub_ints.pop().unwrap();
            let i1 = sub_ints.pop().unwrap();
            match operator {
                MinimalOperators::Strict => Some(MinimalInteraction::Strict(Box::new(i1), Box::new(i2))),
                MinimalOperators::WeakSeq => Some(MinimalInteraction::WeakSeq(Box::new(i1), Box::new(i2))),
                MinimalOperators::Par => Some(MinimalInteraction::Par(Box::new(i1), Box::new(i2))),
                MinimalOperators::Alt => Some(MinimalInteraction::Alt(Box::new(i1), Box::new(i2))),
                MinimalOperators::Loop => None,
            }
        }
    }

    fn get_empty_interaction() -> Self {
        MinimalInteraction::Empty
    }

    fn transform_pattern_to_term(pattern: &MinimalLeafPattern) -> MinimalInteraction {
        match pattern {
            MinimalLeafPattern::EMPTY => MinimalInteraction::Empty,
            MinimalLeafPattern::BROADCAST(broadcast) => {
                if broadcast.targets.is_empty() {
                    let origin_lf_id = broadcast.origin_lf_id.unwrap();
                    MinimalInteraction::Action(MinimalAction::new(
                        origin_lf_id,
                        broadcast.msg_id,
                        MinimalActionKind::Emission,
                    ))
                } else {
                    let mut receptions: Vec<MinimalInteraction> = broadcast
                        .targets
                        .iter()
                        .map(|lf_id| {
                            MinimalInteraction::Action(MinimalAction::new(
                                *lf_id,
                                broadcast.msg_id,
                                MinimalActionKind::Reception,
                            ))
                        })
                        .collect();
                    let recs_int = fold_associative_operands_recursively::<MinimalLangCioII, MinimalInteraction>(
                        &MinimalOperators::WeakSeq,
                        &mut receptions,
                    );
                    match broadcast.origin_lf_id {
                        None => recs_int,
                        Some(origin_lf_id) => {
                            let em_int = MinimalInteraction::Action(MinimalAction::new(
                                origin_lf_id,
                                broadcast.msg_id,
                                MinimalActionKind::Emission,
                            ));
                            MinimalInteraction::Strict(Box::new(em_int), Box::new(recs_int))
                        }
                    }
                }
            }
        }
    }
}

impl DelimitedInteractionLanguageParser for GeneralContext {
    fn left_parenthesis_char(&self) -> char {
        '('
    }

    fn right_parenthesis_char(&self) -> char {
        ')'
    }

    fn separator_char(&self) -> char {
        ','
    }
}

impl GenericBroadcastParser<usize, usize, usize, MinimalBroadcastLeafPattern> for GeneralContext {
    fn make_pattern(&self, origin: Option<usize>, message: usize, targets: Vec<usize>) -> MinimalBroadcastLeafPattern {
        MinimalBroadcastLeafPattern::new(origin, message, targets)
    }

    fn get_empty_target_char(&self) -> char {
        '|'
    }

    fn get_tag_for_message_reception_by_target(&self) -> Vec<char> {
        chars_of("->")
    }

    fn get_tag_for_message_transmission_from_origin(&self) -> Vec<char> {
        chars_of("--")
    }

    fn parse_message(&self, input: &Vec<char>, pos: usize) -> Option<(usize, usize)> {
        parse_element_of_preexisting_vec_and_return_index(&self.ms_names, input, pos)
    }

    fn parse_broadcast_origin(&self, input: &Vec<char>, pos: usize) -> Option<(usize, usize)> {
        parse_element_of_preexisting_vec_and_return_index(&self.lf_names, input, pos)
    }

    fn parse_single_broadcast_targets(&self, input: &Vec<char>, pos: usize) -> Option<(usize, usize)> {
        parse_element_of_preexisting_vec_and_return_index(&self.lf_names, input, pos)
    }
}

impl ContextAwareInteractionParser<MinimalLangCioII> for GeneralContext {
    fn parse_operator(&self, input: &Vec<char>, pos: usize) -> Option<(MinimalOperators, usize)> {
        let candidates = [
            ("strict", MinimalOperators::Strict),
            ("seq", MinimalOperators::WeakSeq),
            ("alt", MinimalOperators::Alt),
            ("par", MinimalOperators::Par),
            ("loop", MinimalOperators::Loop),
        ];
        for (word, op) in candidates {
            if let Some(next) = match_tag(input, pos, &chars_of(word)) {
                return Some((op, next));
            }
        }
        None
    }

    fn parse_explicit_pattern(&self, input: &Vec<char>, pos: usize) -> Option<(MinimalLeafPattern, usize)> {
        if let Some((brd, next)) = self.parse_broadcast_pattern(input, pos) {
            return Some((MinimalLeafPattern::BROADCAST(brd), next));
        }
        for word in ["0", "o"] {
            if let Some(next) = match_tag(input, pos, &chars_of(word)) {
                return Some((MinimalLeafPattern::EMPTY, next));
            }
        }
        None
    }
}

impl ContextAwareInteractionPrinter<MinimalLangCioII> for GeneralContext {
    fn left_parenthesis(&self) -> String {
        "(".to_owned()
    }

    fn right_parenthesis(&self) -> String {
        ")".to_owned()
    }

    fn operand_separator(&self) -> String {
        ",".to_owned()
    }

    fn print_operator(
        &self,
        operator: &MinimalOperators,
        _sub_ints: &Vec<InteractionInternalRepresentation<MinimalLangCioII>>,
    ) -> String {
        operator.as_lowercase_string()
    }

    fn print_explicit_pattern(&self, leaf_pattern: &MinimalLeafPattern) -> String {
        match leaf_pattern {
            MinimalLeafPattern::EMPTY => "0".to_owned(),
            MinimalLeafPattern::BROADCAST(brd) => {
                let start = match brd.origin_lf_id {
                    None => "".to_owned(),
                    Some(lf_id) => format!("{} -- ", self.lf_names.get(lf_id).unwrap()),
                };
                let end: String = match brd.targets.len() {
                    0 => "|".to_owned(),
                    1 => self.lf_names.get(brd.targets[0]).unwrap().clone(),
                    _ => {
                        let targs: Vec<String> =
                            brd.targets.iter().map(|targ| self.lf_names.get(*targ).unwrap().clone()).collect();
                        format!("({})", targs.join(","))
                    }
                };
                format!("{}{} -> {}", start, self.ms_names.get(brd.msg_id).unwrap(), end)
            }
        }
    }
}

fn no_whitespace(s: &str) -> String {
    s.chars().filter(|c| !c.is_whitespace()).collect()
}

pub struct TestRetranslationParameterization {
    pub merge_patterns: bool,
    pub flatten_operands_under_associative_operators: bool,
    pub expected_retranslated_internal_repr: String,
    pub expected_reprinted: String,
}

impl TestRetranslationParameterization {
    pub fn new(
        merge_patterns: bool,
        flatten_operands_under_associative_operators: bool,
        expected_retranslated_internal_repr: String,
        expected_reprinted: String,
    ) -> Self {
        Self {
            merge_patterns,
            flatten_operands_under_associative_operators,
            expected_retranslated_internal_repr,
            expected_reprinted,
        }
    }
}

fn tool_test_verify_parsing_and_two_way_conversions(
    ctx: &GeneralContext,
    input_text: &str,
    expected_parsed_internal_repr: &str,
    expected_term: &str,
    retranslate: Option<TestRetranslationParameterization>,
) {
    let internal_repr =
        parse_interaction::<MinimalLangCioII, GeneralContext>(input_text, ctx).unwrap();
    let got_internal_repr = no_whitespace(&format!("{:?}", internal_repr));
    assert_eq!(expected_parsed_internal_repr, got_internal_repr);

    let term: MinimalInteraction = from_io_repr(&internal_repr);
    let got_term = no_whitespace(&format!("{:?}", term));
    assert_eq!(expected_term, got_term);

    match retranslate {
        Some(param) => {
            let retranslated = to_io_repr::<MinimalLangCioII, MinimalInteraction>(
                &term,
                param.merge_patterns,
                param.flatten_operands_under_associative_operators,
            )
            .unwrap();
            let got_retranslated = no_whitespace(&format!("{:?}", retranslated));
            assert_eq!(param.expected_retranslated_internal_repr, got_retranslated);
            let reprinted = print_interaction(&retranslated, ctx);
            assert_eq!(no_whitespace(&reprinted), no_whitespace(&param.expected_reprinted));
        }
        None => {
            let retranslated = to_io_repr::<MinimalLangCioII, MinimalInteraction>(&term, true, true).unwrap();
            let got_retranslated = no_whitespace(&format!("{:?}", retranslated));
            assert_eq!(expected_parsed_internal_repr, got_retranslated);
            let reprinted = print_interaction(&retranslated, ctx);
            assert_eq!(no_whitespace(&reprinted), no_whitespace(input_text));
        }
    }
}

fn ctx_ab_mn() -> GeneralContext {
    GeneralContext { lf_names: vec!["a".to_string(), "b".to_string()], ms_names: vec!["m".to_string(), "n".to_string()] }
}

const INPUT_1: &str = r#"seq(
        a -- m -> b,
        alt(
                b -- m -> a,
                0
        )
)"#;

const EXPECTED_REPR_1: &str = r#"
Operator(Seq,
    [
        LeafPattern(BROADCAST(MinimalBroadcastLeafPattern { origin_lf_id: Some(0), msg_id: 0, targets: [1] })),
        Operator(Alt,
            [
                LeafPattern(BROADCAST(MinimalBroadcastLeafPattern { origin_lf_id: Some(1), msg_id: 0, targets: [0] })),
                LeafPattern(EMPTY)
            ]
        )
    ]
)
"#;

const EXPECTED_TERM_1: &str = r#"
Seq(
    Strict(
        Action(MinimalAction { lf_id: 0, ms_id: 0, kind: Emission }),
        Action(MinimalAction { lf_id: 1, ms_id: 0, kind: Reception })
    ),
    Alt(
        Strict(
            Action(MinimalAction { lf_id: 1, ms_id: 0, kind: Emission }),
            Action(MinimalAction { lf_id: 0, ms_id: 0, kind: Reception })
        ),
        Empty
    )
)
"#;

fn ctx_abc_mnp() -> GeneralContext {
    GeneralContext {
        lf_names: vec!["a".to_string(), "b".to_string(), "c".to_string()],
        ms_names: vec!["m".to_string(), "n".to_string(), "p".to_string()],
    }
}

const INPUT_2: &str = r#"seq(
        a -- m -> b,
        a -- n -> c,
        loop(
                a -- p -> (b,c)
        )
)"#;

const EXPECTED_REPR_2: &str = r#"
Operator(Seq,
    [
        LeafPattern(BROADCAST(MinimalBroadcastLeafPattern{origin_lf_id:Some(0),msg_id:0,targets:[1]})),
        LeafPattern(BROADCAST(MinimalBroadcastLeafPattern{origin_lf_id:Some(0),msg_id:1,targets:[2]})),
        Operator(Loop,
            [
                LeafPattern(BROADCAST(MinimalBroadcastLeafPattern{origin_lf_id:Some(0),msg_id:2,targets:[1,2]}))
            ]
        )
    ]
)
"#;

const EXPECTED_TERM_2: &str = r#"
Seq(
    Strict(
        Action(MinimalAction{lf_id:0,ms_id:0,kind:Emission}),
        Action(MinimalAction{lf_id:1,ms_id:0,kind:Reception})
    ),
    Seq(
        Strict(
            Action(MinimalAction{lf_id:0,ms_id:1,kind:Emission}),
            Action(MinimalAction{lf_id:2,ms_id:1,kind:Reception})
        ),
        Loop(
            Strict(
                Action(MinimalAction{lf_id:0,ms_id:2,kind:Emission}),
                Seq(
                    Action(MinimalAction{lf_id:1,ms_id:2,kind:Reception}),
                    Action(MinimalAction{lf_id:2,ms_id:2,kind:Reception})
                )
            )
        )
    )
)
"#;

fn ctx_abc_mnopq() -> GeneralContext {
    GeneralContext {
        lf_names: vec!["a".to_string(), "b".to_string(), "c".to_string()],
        ms_names: vec!["m".to_string(), "n".to_string(), "o".to_string(), "p".to_string(), "q".to_string()],
    }
}

const INPUT_3: &str = r#"seq(
        a -- m -> b,
        par(
            a -- n -> c,
            alt(
                c -- o -> c,
                c -- p -> b
            )
        ),
        loop(
            a -- q -> (a,b,c)
        )
)"#;

const EXPECTED_REPR_3: &str = r#"
Operator(Seq,
    [
        LeafPattern(BROADCAST(MinimalBroadcastLeafPattern{origin_lf_id:Some(0),msg_id:0,targets:[1]})),
        Operator(Par,
            [
                LeafPattern(BROADCAST(MinimalBroadcastLeafPattern{origin_lf_id:Some(0),msg_id:1,targets:[2]})),
                Operator(Alt,
                    [
                        LeafPattern(BROADCAST(MinimalBroadcastLeafPattern{origin_lf_id:Some(2),msg_id:2,targets:[2]})),
                        LeafPattern(BROADCAST(MinimalBroadcastLeafPattern{origin_lf_id:Some(2),msg_id:3,targets:[1]}))
                    ]
                )
            ]
        ),
        Operator(Loop,
            [
                LeafPattern(BROADCAST(MinimalBroadcastLeafPattern{origin_lf_id:Some(0),msg_id:4,targets:[0,1,2]}))
            ]
        )
    ]
)
"#;

const EXPECTED_TERM_3: &str = r#"
Seq(
    Strict(
        Action(MinimalAction{lf_id:0,ms_id:0,kind:Emission}),
        Action(MinimalAction{lf_id:1,ms_id:0,kind:Reception})
    ),
    Seq(
        Par(
            Strict(
                Action(MinimalAction{lf_id:0,ms_id:1,kind:Emission}),
                Action(MinimalAction{lf_id:2,ms_id:1,kind:Reception})
            ),
            Alt(
                Strict(
                    Action(MinimalAction{lf_id:2,ms_id:2,kind:Emission}),
                    Action(MinimalAction{lf_id:2,ms_id:2,kind:Reception})
                ),
                Strict(
                    Action(MinimalAction{lf_id:2,ms_id:3,kind:Emission}),
                    Action(MinimalAction{lf_id:1,ms_id:3,kind:Reception})
                )
            )
        ),
        Loop(
            Strict(
                Action(MinimalAction{lf_id:0,ms_id:4,kind:Emission}),
                Seq(
                    Action(MinimalAction{lf_id:0,ms_id:4,kind:Reception}),
                    Seq(
                        Action(MinimalAction{lf_id:1,ms_id:4,kind:Reception}),
                        Action(MinimalAction{lf_id:2,ms_id:4,kind:Reception})
                    )
                )
            )
        )
    )
)
"#;

#[test]
fn tests1_test_parse_and_conversions_1() {
    tool_test_verify_parsing_and_two_way_conversions(
        &ctx_ab_mn(),
        INPUT_1,
        &no_whitespace(EXPECTED_REPR_1),
        &no_whitespace(EXPECTED_TERM_1),
        None,
    );
}

#[test]
fn tests1_test_parse_and_conversions_2() {
    tool_test_verify_parsing_and_two_way_conversions(
        &ctx_abc_mnp(),
        INPUT_2,
        &no_whitespace(EXPECTED_REPR_2),
        &no_whitespace(EXPECTED_TERM_2),
        None,
    );
}

#[test]
fn tests1_test_parse_and_conversions_3() {
    tool_test_verify_parsing_and_two_way_conversions(
        &ctx_abc_mnopq(),
        INPUT_3,
        &no_whitespace(EXPECTED_REPR_3),
        &no_whitespace(EXPECTED_TERM_3),
        None,
    );
}

#[test]
fn main_test_test_parse_and_conversions_1() {
    let ctx = ctx_ab_mn();
    tool_test_verify_parsing_and_two_way_conversions(
        &ctx,
        INPUT_1,
        &no_whitespace(EXPECTED_REPR_1),
        &no_whitespace(EXPECTED_TERM_1),
        None,
    );
    lay_out_minimal(&ctx, INPUT_1);
}

#[test]
fn main_test_test_parse_and_conversions_2() {
    let ctx = ctx_abc_mnp();
    tool_test_verify_parsing_and_two_way_conversions(
        &ctx,
        INPUT_2,
        &no_whitespace(EXPECTED_REPR_2),
        &no_whitespace(EXPECTED_TERM_2),
        None,
    );
    lay_out_minimal(&ctx, INPUT_2);
}

#[test]
fn main_test_test_parse_and_conversions_3() {
    let ctx = ctx_abc_mnopq();
    tool_test_verify_parsing_and_two_way_conversions(
        &ctx,
        INPUT_3,
        &no_whitespace(EXPECTED_REPR_3),
        &no_whitespace(EXPECTED_TERM_3),
        None,
    );
    lay_out_minimal(&ctx, INPUT_3);
}

#[test]
fn test_parse_and_conversions_retranslating_variants() {
    let ctx = ctx_ab_mn();
    let input_text = r#"seq(
        a -- m -> b,
        alt(
                b -- m -> a,
                0,
                a -- n -> b
        ),
        b -- n -> a
)"#;

    let expected_internal_repr = no_whitespace(
        r#"
Operator(Seq,[
    LeafPattern(BROADCAST(MinimalBroadcastLeafPattern{origin_lf_id:Some(0),msg_id:0,targets:[1]})),
    Operator(Alt,[
        LeafPattern(BROADCAST(MinimalBroadcastLeafPattern{origin_lf_id:Some(1),msg_id:0,targets:[0]})),
        LeafPattern(EMPTY),
        LeafPattern(BROADCAST(MinimalBroadcastLeafPattern{origin_lf_id:Some(0),msg_id:1,targets:[1]}))
    ]),
    LeafPattern(BROADCAST(MinimalBroadcastLeafPattern{origin_lf_id:Some(1),msg_id:1,targets:[0]}))
])
"#,
    );

    let expected_term = no_whitespace(
        r#"
Seq(
    Strict(
        Action(MinimalAction{lf_id:0,ms_id:0,kind:Emission}),
        Action(MinimalAction{lf_id:1,ms_id:0,kind:Reception})
    ),
    Seq(
        Alt(
            Strict(
                Action(MinimalAction{lf_id:1,ms_id:0,kind:Emission}),
                Action(MinimalAction{lf_id:0,ms_id:0,kind:Reception})
            ),
            Alt(
                Empty,
                Strict(
                    Action(MinimalAction{lf_id:0,ms_id:1,kind:Emission}),
                    Action(MinimalAction{lf_id:1,ms_id:1,kind:Reception})
                )
            )
        ),
        Strict(
            Action(MinimalAction{lf_id:1,ms_id:1,kind:Emission}),
            Action(MinimalAction{lf_id:0,ms_id:1,kind:Reception})
        )
    )
)
"#,
    );

    tool_test_verify_parsing_and_two_way_conversions(&ctx, input_text, &expected_internal_repr, &expected_term, None);

    let expected_retranslated = no_whitespace(
        r#"
    Operator(Seq,[
        LeafPattern(BROADCAST(MinimalBroadcastLeafPattern{origin_lf_id:Some(0),msg_id:0,targets:[1]})),
        Operator(Seq,[
            Operator(Alt,[
                LeafPattern(BROADCAST(MinimalBroadcastLeafPattern{origin_lf_id:Some(1),msg_id:0,targets:[0]})),
                Operator(Alt,[
                    LeafPattern(EMPTY),
                    LeafPattern(BROADCAST(MinimalBroadcastLeafPattern{origin_lf_id:Some(0),msg_id:1,targets:[1]}))
                ])
            ]),
            LeafPattern(BROADCAST(MinimalBroadcastLeafPattern{origin_lf_id:Some(1),msg_id:1,targets:[0]}))
        ])
    ])
    "#,
    );

    let expected_reprinted = r#"seq(
    a -- m -> b,
    seq(
        alt(
            b -- m -> a,
            alt(
                0,
                a -- n -> b
            )
        ),
        b -- n -> a
    )
)"#
    .to_string();

    tool_test_verify_parsing_and_two_way_conversions(
        &ctx,
        input_text,
        &expected_internal_repr,
        &expected_term,
        Some(TestRetranslationParameterization::new(true, false, expected_retranslated, expected_reprinted)),
    );

    let expected_retranslated2 = no_whitespace(
        r#"
Operator(Seq,[
    Operator(Strict,[
        LeafPattern(BROADCAST(MinimalBroadcastLeafPattern{origin_lf_id:Some(0),msg_id:0,targets:[]})),
        LeafPattern(BROADCAST(MinimalBroadcastLeafPattern{origin_lf_id:None,msg_id:0,targets:[1]}))
    ]),
    Operator(Seq,[
        Operator(Alt,[
            Operator(Strict,[
                LeafPattern(BROADCAST(MinimalBroadcastLeafPattern{origin_lf_id:Some(1),msg_id:0,targets:[]})),
                LeafPattern(BROADCAST(MinimalBroadcastLeafPattern{origin_lf_id:None,msg_id:0,targets:[0]}))
            ]),
            Operator(Alt,[
                LeafPattern(EMPTY),
                Operator(Strict,[
                    LeafPattern(BROADCAST(MinimalBroadcastLeafPattern{origin_lf_id:Some(0),msg_id:1,targets:[]})),
                    LeafPattern(BROADCAST(MinimalBroadcastLeafPattern{origin_lf_id:None,msg_id:1,targets:[1]}))
                ])
            ])
        ]),
        Operator(Strict,[
            LeafPattern(BROADCAST(MinimalBroadcastLeafPattern{origin_lf_id:Some(1),msg_id:1,targets:[]})),
            LeafPattern(BROADCAST(MinimalBroadcastLeafPattern{origin_lf_id:None,msg_id:1,targets:[0]}))
        ])
    ])
])
    "#,
    );

    let expected_reprinted2 = r#"seq(
    strict(
        a -- m ->|,
        m -> b
    ),
    seq(
        alt(
            strict(
                b -- m ->|,
                m -> a
            ),
            alt(
                0,
                strict(
                    a -- n ->|,
                    n -> b
                )
            )
        ),
        strict(
            b -- n ->|,
            n -> a
        )
    )
)"#
    .to_string();

    tool_test_verify_parsing_and_two_way_conversions(
        &ctx,
        input_text,
        &expected_internal_repr,
        &expected_term,
        Some(TestRetranslationParameterization::new(false, false, expected_retranslated2, expected_reprinted2)),
    );
}

fn tool_test_parse_fail(ctx: GeneralContext, input_text: &str) {
    let parse_result = parse_interaction::<MinimalLangCioII, GeneralContext>(input_text, &ctx);
    assert!(parse_result.is_err())
}

#[test]
fn test_fail_unexpected_char() {
    let ctx = ctx_ab_mn();
    let input_text = r#"seq(;
        a -- m -> b,
        alt(
                b -- m -> a,
                0
        )
)"#;
    tool_test_parse_fail(ctx, input_text);
}

#[test]
fn test_fail_arity_loop() {
    let ctx = ctx_abc_mnp();
    let input_text = r#"seq(
        a -- m -> b,
        a -- n -> c,
        loop(
            a -- p -> (b,c),
            b -- m -> c
        )
)"#;
    tool_test_parse_fail(ctx, input_text);
}

#[test]
fn printing_indents_operands_one_tab_deeper() {
    let ctx = ctx_ab_mn();
    let repr = parse_interaction::<MinimalLangCioII, GeneralContext>("alt(a -- m -> b, 0)", &ctx).unwrap();
    assert_eq!(print_interaction(&repr, &ctx), "alt(\n\ta -- m -> b,\n\t0\n)");
}

#[test]
fn parsing_reads_a_reception_without_origin() {
    let ctx = ctx_ab_mn();
    let repr = parse_interaction::<MinimalLangCioII, GeneralContext>("  n -> (a,b)  ", &ctx).unwrap();
    assert_eq!(
        no_whitespace(&format!("{:?}", repr)),
        "LeafPattern(BROADCAST(MinimalBroadcastLeafPattern{origin_lf_id:None,msg_id:1,targets:[0,1]}))"
    );
}

#[test]
fn parsing_rejects_an_unknown_lifeline() {
    let ctx = ctx_ab_mn();
    assert!(parse_interaction::<MinimalLangCioII, GeneralContext>("z -- m -> a", &ctx).is_err());
}

#[test]
fn folding_no_operand_gives_the_empty_interaction() {
    let mut none: Vec<MinimalInteraction> = vec![];
    let folded = fold_associative_operands_recursively::<MinimalLangCioII, MinimalInteraction>(
        &MinimalOperators::WeakSeq,
        &mut none,
    );
    assert_eq!(folded, MinimalInteraction::Empty);
}

fn measured(text: &str) -> MeasuredText<String> {
    MeasuredText::new(text.to_owned(), 8 * text.chars().count() as u64, 16)
}

struct MinimalDrawingContext {
    ctx: GeneralContext,
}

impl ContextAwareInteractionDrawingInstructionsExtractor<MinimalLangCioII, String, (), ()> for MinimalDrawingContext {
    fn lifelines_compare(&self, l1: usize, l2: usize) -> std::cmp::Ordering {
        l1.cmp(&l2)
    }

    fn get_involved_lifelines(&self, pattern: &MinimalLeafPattern) -> Vec<usize> {
        match pattern {
            MinimalLeafPattern::EMPTY => vec![],
            MinimalLeafPattern::BROADCAST(brd) => {
                let mut lfs: Vec<usize> = brd.origin_lf_id.into_iter().collect();
                lfs.extend(brd.targets.iter().cloned());
                lfs
            }
        }
    }

    fn get_lifeline_header(&self, l: usize) -> MeasuredText<String> {
        measured(&self.ctx.lf_names[l])
    }

    fn to_drawable_pattern(&self, pattern: &MinimalLeafPattern) -> Option<DrawableBroadcastLeafPattern<String, ()>> {
        match pattern {
            MinimalLeafPattern::EMPTY => None,
            MinimalLeafPattern::BROADCAST(brd) => {
                let origin = match brd.origin_lf_id {
                    Some(lf) => {
                        DrawableBroadcastLeafPatternOrigin::Lifeline(lf, PrePostAmbleDrawableActionItem::new(None, None))
                    }
                    None => DrawableBroadcastLeafPatternOrigin::Empty,
                };
                let targets = brd
                    .targets
                    .iter()
                    .map(|lf| {
                        (*lf, TargetLifelineBroadcastDrawInstruction::TwoParts(PrePostAmbleDrawableActionItem::new(None, None)))
                    })
                    .collect();
                Some(DrawableBroadcastLeafPattern::new(measured(&self.ctx.ms_names[brd.msg_id]), (), origin, targets, vec![]))
            }
        }
    }

    fn to_drawable_operator(&self, op: &MinimalOperators) -> DrawableOperator<String, ()> {
        let kind = match op {
            MinimalOperators::Strict | MinimalOperators::WeakSeq => DrawableOperatorKind::CoRegionLike(vec![]),
            _ => DrawableOperatorKind::Framed(measured(&op.as_lowercase_string())),
        };
        DrawableOperator::new((), kind)
    }

    fn get_y_margin_between_seq_operands(&self) -> u64 {
        10
    }

    fn get_margin_between_items(&self) -> u64 {
        5
    }

    fn get_border_padding(&self) -> u64 {
        20
    }
}

fn lay_out_minimal(ctx: &GeneralContext, input_text: &str) {
    let repr = parse_interaction::<MinimalLangCioII, GeneralContext>(input_text, ctx).unwrap();
    let drawing_context = MinimalDrawingContext { ctx: ctx.clone() };
    let geometry = extract_drawing_information_in_context(&drawing_context, &repr).unwrap();
    assert_eq!(geometry.lifelines, (0..ctx.lf_names.len()).collect::<Vec<usize>>());
    assert_eq!(geometry.lifelines_horizontal_positions.len(), ctx.lf_names.len());
    for w in geometry.lifelines_horizontal_positions.windows(2) {
        assert!(w[0] < w[1]);
    }
    for w in geometry.patterns_to_draw.windows(2) {
        assert!(w[0].relative_y_pos + w[0].intermediate_info.y_space_top_to_bottom <= w[1].relative_y_pos);
    }
    assert!(geometry.width > *geometry.lifelines_horizontal_positions.last().unwrap());
}
