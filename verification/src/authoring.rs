//! What the editor asks the desktop for, and what the desktop answers.
use crate::content::{all_alike, clone_list, equal_lists, views, Alike, Content, Exact};
use crate::draft::EditorDraft;
use crate::fingerprint::{lemma_render_injective, render, Fingerprint, Token};
use crate::macro_engine::{
    AssetRef, ImageRule, ImageRuleVerificationArtifact, MacroDefinitionView, NegativeCorpusSample,
    NegativeCorpusSampleView, RectRatio, RegionDefinition, TextRule,
};
use crate::parts::{
    add_list, lemma_list_read_back, lemma_printed_list, list_parts, printed_list,
};
use crate::wizard::AuthoringSessionId;
use vstd::prelude::*;

verus! {

#[derive(Debug, Clone, Copy, PartialEq, Eq, Structural)]
pub struct EditorAuthoringRequestId(pub u64);

#[allow(inconsistent_fields)]
#[derive(Debug, PartialEq, Eq)]
pub enum EditorAuthoringKind {
    CaptureTarget,
    TestOcr { block_id: String },
    TestImage { block_id: String },
    RecaptureRegion { region_id: String },
    RecaptureTemplate { rule_id: String },
    CaptureImageNegative { block_id: String },
}

/// The contents of an [`EditorAuthoringKind`].
#[allow(inconsistent_fields)]
#[verifier::ext_equal]
pub ghost enum AuthoringKindView {
    CaptureTarget,
    TestOcr { block_id: Seq<char> },
    TestImage { block_id: Seq<char> },
    RecaptureRegion { region_id: Seq<char> },
    RecaptureTemplate { rule_id: Seq<char> },
    CaptureImageNegative { block_id: Seq<char> },
}

impl View for EditorAuthoringKind {
    type V = AuthoringKindView;

    open spec fn view(&self) -> AuthoringKindView {
        match *self {
            EditorAuthoringKind::CaptureTarget => AuthoringKindView::CaptureTarget,
            EditorAuthoringKind::TestOcr { block_id } => AuthoringKindView::TestOcr {
                block_id: block_id@,
            },
            EditorAuthoringKind::TestImage { block_id } => AuthoringKindView::TestImage {
                block_id: block_id@,
            },
            EditorAuthoringKind::RecaptureRegion { region_id } => {
                AuthoringKindView::RecaptureRegion { region_id: region_id@ }
            },
            EditorAuthoringKind::RecaptureTemplate { rule_id } => {
                AuthoringKindView::RecaptureTemplate { rule_id: rule_id@ }
            },
            EditorAuthoringKind::CaptureImageNegative { block_id } => {
                AuthoringKindView::CaptureImageNegative { block_id: block_id@ }
            },
        }
    }
}

impl Clone for EditorAuthoringKind {
    fn clone(&self) -> (copy: Self)
        ensures
            copy == *self,
    {
        match self {
            EditorAuthoringKind::CaptureTarget => EditorAuthoringKind::CaptureTarget,
            EditorAuthoringKind::TestOcr { block_id } => EditorAuthoringKind::TestOcr {
                block_id: block_id.clone(),
            },
            EditorAuthoringKind::TestImage { block_id } => EditorAuthoringKind::TestImage {
                block_id: block_id.clone(),
            },
            EditorAuthoringKind::RecaptureRegion { region_id } => {
                EditorAuthoringKind::RecaptureRegion { region_id: region_id.clone() }
            },
            EditorAuthoringKind::RecaptureTemplate { rule_id } => {
                EditorAuthoringKind::RecaptureTemplate { rule_id: rule_id.clone() }
            },
            EditorAuthoringKind::CaptureImageNegative { block_id } => {
                EditorAuthoringKind::CaptureImageNegative { block_id: block_id.clone() }
            },
        }
    }
}

impl Exact for EditorAuthoringKind {
    fn same(&self, other: &Self) -> (equal: bool) {
        match (self, other) {
            (EditorAuthoringKind::CaptureTarget, EditorAuthoringKind::CaptureTarget) => true,
            (
                EditorAuthoringKind::TestOcr { block_id: a },
                EditorAuthoringKind::TestOcr { block_id: b },
            ) => *a == *b,
            (
                EditorAuthoringKind::TestImage { block_id: a },
                EditorAuthoringKind::TestImage { block_id: b },
            ) => *a == *b,
            (
                EditorAuthoringKind::RecaptureRegion { region_id: a },
                EditorAuthoringKind::RecaptureRegion { region_id: b },
            ) => *a == *b,
            (
                EditorAuthoringKind::RecaptureTemplate { rule_id: a },
                EditorAuthoringKind::RecaptureTemplate { rule_id: b },
            ) => *a == *b,
            (
                EditorAuthoringKind::CaptureImageNegative { block_id: a },
                EditorAuthoringKind::CaptureImageNegative { block_id: b },
            ) => *a == *b,
            _ => false,
        }
    }
}

impl Content for EditorAuthoringKind {
    fn duplicate(&self) -> (copy: Self) {
        self.clone()
    }
}

/// What the editor asks the desktop for.
#[derive(Debug, PartialEq)]
pub struct EditorAuthoringRequest {
    pub session: AuthoringSessionId,
    pub id: EditorAuthoringRequestId,
    pub fingerprint: String,
    pub kind: EditorAuthoringKind,
    pub image_negative_samples: Vec<NegativeCorpusSample>,
}

/// The contents of an [`EditorAuthoringRequest`].
#[verifier::ext_equal]
pub ghost struct EditorRequestView {
    pub session: AuthoringSessionId,
    pub id: EditorAuthoringRequestId,
    pub fingerprint: Seq<char>,
    pub kind: AuthoringKindView,
    pub image_negative_samples: Seq<NegativeCorpusSampleView>,
}

impl View for EditorAuthoringRequest {
    type V = EditorRequestView;

    open spec fn view(&self) -> EditorRequestView {
        EditorRequestView {
            session: self.session,
            id: self.id,
            fingerprint: self.fingerprint@,
            kind: self.kind@,
            image_negative_samples: views(self.image_negative_samples@),
        }
    }
}

impl Clone for EditorAuthoringRequest {
    fn clone(&self) -> (copy: Self)
        ensures
            copy@ == self@,
    {
        EditorAuthoringRequest {
            session: self.session,
            id: self.id,
            fingerprint: self.fingerprint.clone(),
            kind: self.kind.clone(),
            image_negative_samples: clone_list(&self.image_negative_samples),
        }
    }
}

/// Two requests of the editor are equal: the scores of their samples compare as equal, and
/// everything else is the same.
pub open spec fn equal_editor_requests(one: EditorRequestView, other: EditorRequestView) -> bool {
    all_alike::<NegativeCorpusSample>(one.image_negative_samples, other.image_negative_samples)
        && one == (EditorRequestView {
        image_negative_samples: one.image_negative_samples,
        ..other
    })
}

impl Alike for EditorAuthoringRequest {
    open spec fn alike(one: EditorRequestView, other: EditorRequestView) -> bool {
        equal_editor_requests(one, other)
    }

    fn equals(&self, other: &Self) -> (equal: bool) {
        self.session == other.session && self.id == other.id && self.fingerprint
            == other.fingerprint && self.kind.same(&other.kind) && equal_lists(
            &self.image_negative_samples,
            &other.image_negative_samples,
        )
    }
}

impl Content for EditorAuthoringRequest {
    fn duplicate(&self) -> (copy: Self) {
        self.clone()
    }
}

/// What the desktop answers the editor.
#[derive(Debug, Clone, PartialEq)]
pub enum EditorAuthoringOutcome {
    TargetGeometry {
        process_path: String,
        window_class: String,
        title: String,
        width: u32,
        height: u32,
        dpi: u32,
    },
    Region(RectRatio),
    Template { asset: AssetRef },
    DetectorTest {
        passed: bool,
        evidence: String,
        elapsed_ms: u64,
        rule_id: Option<String>,
        image_verification: Option<ImageRuleVerificationArtifact>,
    },
    ImageNegativeSample { block_id: String, sample: NegativeCorpusSample },
    Failed(String),
    Cancelled,
}

#[derive(Debug, Clone, PartialEq)]
pub struct EditorAuthoringResult {
    pub session: AuthoringSessionId,
    pub id: EditorAuthoringRequestId,
    pub fingerprint: String,
    pub outcome: EditorAuthoringOutcome,
}

/// Why an answer of the desktop was not taken.
#[derive(Debug, Clone, Copy, PartialEq, Eq, Structural)]
pub enum EditorAuthoringError {
    UnexpectedResult,
    StaleDraft,
    OutcomeMismatch,
    EditRejected,
}

/// The parts of a definition that an answer of the desktop rests on.
pub open spec fn authoring_parts(definition: MacroDefinitionView) -> Seq<Token> {
    seq![Token::Number(definition.revision as nat)] + list_parts::<RegionDefinition>(
        definition.regions,
    ) + list_parts::<TextRule>(definition.text_rules) + list_parts::<ImageRule>(
        definition.image_rules,
    )
}

/// The fingerprint of what an answer of the desktop rests on.
pub open spec fn authoring_print(definition: MacroDefinitionView) -> Seq<char> {
    render(authoring_parts(definition))
}

pub fn editor_authoring_fingerprint(draft: &EditorDraft) -> (fingerprint: String)
    ensures
        fingerprint@ == authoring_print(draft@.definition),
{
    let definition = &draft.definition;
    let mut out = Fingerprint::new();
    out.number(definition.revision);
    add_list(&definition.regions, &mut out);
    add_list(&definition.text_rules, &mut out);
    add_list(&definition.image_rules, &mut out);
    assert(out@ =~= authoring_parts(draft@.definition));
    out.finish()
}

/// Two definitions have the same fingerprint exactly where they agree in their revision, their
/// regions and their rules, as these are printed.
pub proof fn authoring_print_tells_definitions_apart(
    a: MacroDefinitionView,
    b: MacroDefinitionView,
)
    ensures
        authoring_print(a) == authoring_print(b) <==> (a.revision == b.revision && printed_list::<
            RegionDefinition,
        >(a.regions) == printed_list::<RegionDefinition>(b.regions) && printed_list::<TextRule>(
            a.text_rules,
        ) == printed_list::<TextRule>(b.text_rules) && printed_list::<ImageRule>(a.image_rules)
            == printed_list::<ImageRule>(b.image_rules)),
{
    lemma_printed_list::<RegionDefinition>(a.regions);
    lemma_printed_list::<RegionDefinition>(b.regions);
    lemma_printed_list::<TextRule>(a.text_rules);
    lemma_printed_list::<TextRule>(b.text_rules);
    lemma_printed_list::<ImageRule>(a.image_rules);
    lemma_printed_list::<ImageRule>(b.image_rules);
    if authoring_print(a) == authoring_print(b) {
        lemma_render_injective(authoring_parts(a), authoring_parts(b));
        let x = authoring_parts(a);
        let y = authoring_parts(b);
        assert(x[0] == Token::Number(a.revision as nat));
        assert(y[0] == Token::Number(b.revision as nat));
        let image_a = list_parts::<ImageRule>(a.image_rules);
        let image_b = list_parts::<ImageRule>(b.image_rules);
        let text_a = list_parts::<TextRule>(a.text_rules);
        let text_b = list_parts::<TextRule>(b.text_rules);
        let region_a = list_parts::<RegionDefinition>(a.regions);
        let region_b = list_parts::<RegionDefinition>(b.regions);
        assert(x.skip(1) =~= region_a + (text_a + image_a));
        assert(y.skip(1) =~= region_b + (text_b + image_b));
        lemma_list_read_back::<RegionDefinition>(
            a.regions,
            b.regions,
            text_a + image_a,
            text_b + image_b,
        );
        lemma_list_read_back::<TextRule>(a.text_rules, b.text_rules, image_a, image_b);
        assert(image_a + Seq::empty() =~= image_a);
        assert(image_b + Seq::empty() =~= image_b);
        lemma_list_read_back::<ImageRule>(
            a.image_rules,
            b.image_rules,
            Seq::empty(),
            Seq::empty(),
        );
    }
}

} // verus!
