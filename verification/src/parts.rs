//! The parts that definitions bring to a fingerprint, from which their contents are read back.
use crate::block_equality::lemma_parts_agree;
use crate::content::{option_view, views};
use crate::double::{print_double, printed_double};
use crate::fingerprint::{Fingerprint, Token};
use crate::macro_engine::{
    AssetRef, AssetRefView, ImageRule, ImageRuleVerificationArtifact,
    ImageRuleVerificationArtifactView, ImageRuleView, Limit, MatchSelectionPolicy, MouseButton,
    NegativeCorpusSample, NegativeCorpusSampleView, PointRatio, PreprocessProfile, RectRatio,
    RegionDefinition, RegionDefinitionView, TargetProfile, TargetProfileView, TextMatchMode, TextRule, TextRuleView,
};
use crate::single::{print_single, printed_single};
use vstd::prelude::*;

verus! {

/// A value whose contents a fingerprint records.
pub trait Parts: View + Sized {
    /// The parts that contents bring.
    spec fn parts(value: Self::V) -> Seq<Token>;

    /// The contents as a fingerprint tells them apart: with one NaN in the place of every other.
    spec fn printed(value: Self::V) -> Self::V;

    /// The parts that contents bring are those of the contents as they are printed.
    proof fn printed_parts(value: Self::V)
        ensures
            Self::parts(Self::printed(value)) == Self::parts(value),
    ;

    /// Contents are read back from the front of a list of parts, and so is what follows.
    proof fn read_back(a: Self::V, b: Self::V, left: Seq<Token>, right: Seq<Token>)
        requires
            Self::parts(a) + left == Self::parts(b) + right,
        ensures
            Self::printed(a) == Self::printed(b),
            left == right,
    ;

    /// Adds the parts of a value to a fingerprint.
    fn add_parts(&self, out: &mut Fingerprint)
        requires
            old(out).wf(),
        ensures
            final(out).wf(),
            final(out)@ == old(out)@ + Self::parts(self@),
    ;
}

/// The parts of the values of a list.
pub open spec fn item_parts<T: Parts>(list: Seq<T::V>) -> Seq<Token>
    decreases list.len(),
{
    if list.len() == 0 {
        Seq::empty()
    } else {
        T::parts(list[0]) + item_parts::<T>(list.drop_first())
    }
}

/// The parts of a list: its length and its values.
pub open spec fn list_parts<T: Parts>(list: Seq<T::V>) -> Seq<Token> {
    seq![Token::Number(list.len())] + item_parts::<T>(list)
}

/// The parts of an optional value.
pub open spec fn option_parts<T: Parts>(value: Option<T::V>) -> Seq<Token> {
    match value {
        Some(inner) => seq![Token::Number(1)] + T::parts(inner),
        None => seq![Token::Number(0)],
    }
}

/// The values of a list as they are printed.
pub open spec fn printed_list<T: Parts>(list: Seq<T::V>) -> Seq<T::V> {
    Seq::new(list.len(), |i: int| T::printed(list[i]))
}

/// An optional value as it is printed.
pub open spec fn printed_option<T: Parts>(value: Option<T::V>) -> Option<T::V> {
    match value {
        Some(inner) => Some(T::printed(inner)),
        None => None,
    }
}

/// A rectangle as it is printed.
pub open spec fn printed_rect(rect: RectRatio) -> RectRatio {
    RectRatio {
        x: printed_double(rect.x),
        y: printed_double(rect.y),
        width: printed_double(rect.width),
        height: printed_double(rect.height),
    }
}

/// A point as it is printed.
pub open spec fn printed_point(point: PointRatio) -> PointRatio {
    PointRatio { x: printed_double(point.x), y: printed_double(point.y) }
}

/// The parts of a list are those of the list as it is printed.
pub proof fn lemma_printed_list<T: Parts>(list: Seq<T::V>)
    ensures
        list_parts::<T>(printed_list::<T>(list)) == list_parts::<T>(list),
{
    lemma_printed_items::<T>(list);
}

proof fn lemma_printed_items<T: Parts>(list: Seq<T::V>)
    ensures
        item_parts::<T>(printed_list::<T>(list)) == item_parts::<T>(list),
    decreases list.len(),
{
    if list.len() > 0 {
        let rest = list.drop_first();
        lemma_printed_items::<T>(rest);
        T::printed_parts(list[0]);
        assert(printed_list::<T>(list).drop_first() =~= printed_list::<T>(rest));
    }
}

proof fn lemma_item_parts_push<T: Parts>(list: Seq<T::V>, i: int)
    requires
        0 <= i < list.len(),
    ensures
        item_parts::<T>(list.take(i + 1)) == item_parts::<T>(list.take(i)) + T::parts(list[i]),
    decreases i,
{
    if i == 0 {
        reveal_with_fuel(item_parts, 2);
        assert(list.take(1).drop_first() =~= Seq::empty());
        assert(list.take(0) =~= Seq::empty());
        assert(item_parts::<T>(list.take(1)) =~= T::parts(list[0]));
    } else {
        assert(list.take(i + 1).drop_first() =~= list.drop_first().take(i));
        assert(list.take(i).drop_first() =~= list.drop_first().take(i - 1));
        lemma_item_parts_push::<T>(list.drop_first(), i - 1);
        assert(item_parts::<T>(list.take(i + 1)) =~= item_parts::<T>(list.take(i)) + T::parts(
            list[i],
        ));
    }
}

proof fn lemma_items_read_back<T: Parts>(
    a: Seq<T::V>,
    b: Seq<T::V>,
    left: Seq<Token>,
    right: Seq<Token>,
)
    requires
        a.len() == b.len(),
        item_parts::<T>(a) + left == item_parts::<T>(b) + right,
    ensures
        printed_list::<T>(a) == printed_list::<T>(b),
        left == right,
    decreases a.len(),
{
    if a.len() == 0 {
        assert(item_parts::<T>(a) + left =~= left);
        assert(item_parts::<T>(b) + right =~= right);
        assert(printed_list::<T>(a) =~= printed_list::<T>(b));
    } else {
        let rest_a = item_parts::<T>(a.drop_first());
        let rest_b = item_parts::<T>(b.drop_first());
        assert(item_parts::<T>(a) + left =~= T::parts(a[0]) + (rest_a + left));
        assert(item_parts::<T>(b) + right =~= T::parts(b[0]) + (rest_b + right));
        T::read_back(a[0], b[0], rest_a + left, rest_b + right);
        lemma_items_read_back::<T>(a.drop_first(), b.drop_first(), left, right);
        assert(printed_list::<T>(a) =~= seq![T::printed(a[0])] + printed_list::<T>(a.drop_first()));
        assert(printed_list::<T>(b) =~= seq![T::printed(b[0])] + printed_list::<T>(b.drop_first()));
    }
}

pub proof fn lemma_list_read_back<T: Parts>(
    a: Seq<T::V>,
    b: Seq<T::V>,
    left: Seq<Token>,
    right: Seq<Token>,
)
    requires
        list_parts::<T>(a) + left == list_parts::<T>(b) + right,
    ensures
        printed_list::<T>(a) == printed_list::<T>(b),
        left == right,
{
    let x = seq![Token::Number(a.len())];
    let y = seq![Token::Number(b.len())];
    assert(list_parts::<T>(a) + left =~= x + (item_parts::<T>(a) + left));
    assert(list_parts::<T>(b) + right =~= y + (item_parts::<T>(b) + right));
    lemma_parts_agree(x, item_parts::<T>(a) + left, y, item_parts::<T>(b) + right);
    assert(x[0] == y[0]);
    lemma_items_read_back::<T>(a, b, left, right);
}

pub proof fn lemma_option_read_back<T: Parts>(
    a: Option<T::V>,
    b: Option<T::V>,
    left: Seq<Token>,
    right: Seq<Token>,
)
    requires
        option_parts::<T>(a) + left == option_parts::<T>(b) + right,
    ensures
        printed_option::<T>(a) == printed_option::<T>(b),
        left == right,
{
    let x = option_parts::<T>(a) + left;
    let y = option_parts::<T>(b) + right;
    assert(x[0] == option_parts::<T>(a)[0]);
    assert(y[0] == option_parts::<T>(b)[0]);
    match (a, b) {
        (Some(p), Some(q)) => {
            assert(x.skip(1) =~= T::parts(p) + left);
            assert(y.skip(1) =~= T::parts(q) + right);
            T::read_back(p, q, left, right);
        },
        (None, None) => {
            assert(x.skip(1) =~= left);
            assert(y.skip(1) =~= right);
        },
        _ => {},
    }
}

pub fn add_list<T: Parts>(list: &Vec<T>, out: &mut Fingerprint)
    requires
        old(out).wf(),
    ensures
        final(out).wf(),
        final(out)@ == old(out)@ + list_parts::<T>(views(list@)),
{
    let ghost before = out@;
    let ghost all = views(list@);
    out.number(list.len() as u64);
    let mut i: usize = 0;
    let ghost start = before + seq![Token::Number(all.len())];
    assert(all.take(0) =~= Seq::empty());
    assert(out@ =~= start + item_parts::<T>(all.take(0)));
    while i < list.len()
        invariant
            i <= list@.len(),
            all == views(list@),
            out.wf(),
            out@ == start + item_parts::<T>(all.take(i as int)),
        decreases list@.len() - i,
    {
        proof {
            lemma_item_parts_push::<T>(all, i as int);
        }
        list[i].add_parts(out);
        i += 1;
        assert(out@ =~= start + item_parts::<T>(all.take(i as int)));
    }
    assert(all.take(i as int) =~= all);
    assert(out@ =~= before + list_parts::<T>(all));
}

pub fn add_option<T: Parts>(value: &Option<T>, out: &mut Fingerprint)
    requires
        old(out).wf(),
    ensures
        final(out).wf(),
        final(out)@ == old(out)@ + option_parts::<T>(option_view(*value)),
{
    let ghost before = out@;
    match value {
        Some(inner) => {
            out.number(1);
            inner.add_parts(out);
            assert(out@ =~= before + option_parts::<T>(option_view(*value)));
        },
        None => {
            out.number(0);
            assert(out@ =~= before + option_parts::<T>(option_view(*value)));
        },
    }
}

/// A truth value as a number.
pub open spec fn flag(value: bool) -> nat {
    if value {
        1
    } else {
        0
    }
}

pub fn flag_number(value: bool) -> (number: u64)
    ensures
        number as nat == flag(value),
{
    if value {
        1
    } else {
        0
    }
}

/// A limit as two parts: whether it is finite, and its value.
pub open spec fn limit_parts(limit: Limit<u64>) -> Seq<Token> {
    match limit {
        Limit::Finite(value) => seq![Token::Number(1), Token::Number(value as nat)],
        Limit::Unlimited => seq![Token::Number(0), Token::Number(0)],
    }
}

pub fn add_limit(limit: Limit<u64>, out: &mut Fingerprint)
    requires
        old(out).wf(),
    ensures
        final(out).wf(),
        final(out)@ == old(out)@ + limit_parts(limit),
{
    let ghost before = out@;
    match limit {
        Limit::Finite(value) => {
            out.number(1);
            out.number(value);
        },
        Limit::Unlimited => {
            out.number(0);
            out.number(0);
        },
    }
    assert(out@ =~= before + limit_parts(limit));
}

pub proof fn lemma_limit_read_back(
    a: Limit<u64>,
    b: Limit<u64>,
    left: Seq<Token>,
    right: Seq<Token>,
)
    requires
        limit_parts(a) + left == limit_parts(b) + right,
    ensures
        a == b,
        left == right,
{
    lemma_parts_agree(limit_parts(a), left, limit_parts(b), right);
    assert(limit_parts(a)[0] == limit_parts(b)[0]);
    assert(limit_parts(a)[1] == limit_parts(b)[1]);
}

pub open spec fn preprocess_number(value: PreprocessProfile) -> nat {
    match value {
        PreprocessProfile::Original => 0,
        PreprocessProfile::Grayscale => 1,
        PreprocessProfile::HighContrast => 2,
        PreprocessProfile::SmallText => 3,
    }
}

pub fn preprocess_tag(value: PreprocessProfile) -> (number: u64)
    ensures
        number as nat == preprocess_number(value),
{
    match value {
        PreprocessProfile::Original => 0,
        PreprocessProfile::Grayscale => 1,
        PreprocessProfile::HighContrast => 2,
        PreprocessProfile::SmallText => 3,
    }
}

pub open spec fn match_mode_number(value: TextMatchMode) -> nat {
    match value {
        TextMatchMode::Exact => 0,
        TextMatchMode::Contains => 1,
        TextMatchMode::Fuzzy => 2,
        TextMatchMode::Absent => 3,
    }
}

pub fn match_mode_tag(value: TextMatchMode) -> (number: u64)
    ensures
        number as nat == match_mode_number(value),
{
    match value {
        TextMatchMode::Exact => 0,
        TextMatchMode::Contains => 1,
        TextMatchMode::Fuzzy => 2,
        TextMatchMode::Absent => 3,
    }
}

pub open spec fn policy_number(value: MatchSelectionPolicy) -> nat {
    match value {
        MatchSelectionPolicy::ExactlyOne => 0,
        MatchSelectionPolicy::HighestScore => 1,
        MatchSelectionPolicy::FirstReadingOrder => 2,
        MatchSelectionPolicy::Topmost => 3,
        MatchSelectionPolicy::Bottommost => 4,
    }
}

pub fn policy_tag(value: MatchSelectionPolicy) -> (number: u64)
    ensures
        number as nat == policy_number(value),
{
    match value {
        MatchSelectionPolicy::ExactlyOne => 0,
        MatchSelectionPolicy::HighestScore => 1,
        MatchSelectionPolicy::FirstReadingOrder => 2,
        MatchSelectionPolicy::Topmost => 3,
        MatchSelectionPolicy::Bottommost => 4,
    }
}

pub open spec fn button_number(value: MouseButton) -> nat {
    match value {
        MouseButton::Left => 0,
        MouseButton::Right => 1,
    }
}

pub fn button_tag(value: MouseButton) -> (number: u64)
    ensures
        number as nat == button_number(value),
{
    match value {
        MouseButton::Left => 0,
        MouseButton::Right => 1,
    }
}

impl Parts for String {
    open spec fn parts(value: Seq<char>) -> Seq<Token> {
        seq![Token::Text(value)]
    }

    open spec fn printed(value: Seq<char>) -> Seq<char> {
        value
    }

    proof fn printed_parts(value: Seq<char>) {
    }

    proof fn read_back(a: Seq<char>, b: Seq<char>, left: Seq<Token>, right: Seq<Token>) {
        lemma_parts_agree(Self::parts(a), left, Self::parts(b), right);
        assert(Self::parts(a)[0] == Self::parts(b)[0]);
    }

    fn add_parts(&self, out: &mut Fingerprint) {
        let ghost before = out@;
        out.text(self.as_str());
        assert(out@ =~= before + Self::parts(self@));
    }
}

impl Parts for AssetRef {
    open spec fn parts(value: AssetRefView) -> Seq<Token> {
        seq![
            Token::Text(value.id),
            Token::Number(value.revision as nat),
            Token::Text(value.content_hash),
        ]
    }

    open spec fn printed(value: AssetRefView) -> AssetRefView {
        value
    }

    proof fn printed_parts(value: AssetRefView) {
    }

    proof fn read_back(a: AssetRefView, b: AssetRefView, left: Seq<Token>, right: Seq<Token>) {
        lemma_parts_agree(Self::parts(a), left, Self::parts(b), right);
        assert(Self::parts(a)[0] == Self::parts(b)[0]);
        assert(Self::parts(a)[1] == Self::parts(b)[1]);
        assert(Self::parts(a)[2] == Self::parts(b)[2]);
    }

    fn add_parts(&self, out: &mut Fingerprint) {
        let ghost before = out@;
        out.text(self.id.as_str());
        out.number(self.revision);
        out.text(self.content_hash.as_str());
        assert(out@ =~= before + Self::parts(self@));
    }
}

impl Parts for RegionDefinition {
    open spec fn parts(value: RegionDefinitionView) -> Seq<Token> {
        seq![
            Token::Text(value.id),
            Token::Number(value.revision as nat),
            Token::Number(printed_double(value.rect.x).0 as nat),
            Token::Number(printed_double(value.rect.y).0 as nat),
            Token::Number(printed_double(value.rect.width).0 as nat),
            Token::Number(printed_double(value.rect.height).0 as nat),
        ]
    }

    open spec fn printed(value: RegionDefinitionView) -> RegionDefinitionView {
        RegionDefinitionView { rect: printed_rect(value.rect), ..value }
    }

    proof fn printed_parts(value: RegionDefinitionView) {
    }

    proof fn read_back(
        a: RegionDefinitionView,
        b: RegionDefinitionView,
        left: Seq<Token>,
        right: Seq<Token>,
    ) {
        lemma_parts_agree(Self::parts(a), left, Self::parts(b), right);
        assert(Self::parts(a)[0] == Self::parts(b)[0]);
        assert(Self::parts(a)[1] == Self::parts(b)[1]);
        assert(Self::parts(a)[2] == Self::parts(b)[2]);
        assert(Self::parts(a)[3] == Self::parts(b)[3]);
        assert(Self::parts(a)[4] == Self::parts(b)[4]);
        assert(Self::parts(a)[5] == Self::parts(b)[5]);
    }

    fn add_parts(&self, out: &mut Fingerprint) {
        let ghost before = out@;
        out.text(self.id.as_str());
        out.number(self.revision);
        out.number(print_double(self.rect.x).0);
        out.number(print_double(self.rect.y).0);
        out.number(print_double(self.rect.width).0);
        out.number(print_double(self.rect.height).0);
        assert(out@ =~= before + Self::parts(self@));
    }
}

impl Parts for TargetProfile {
    open spec fn parts(value: TargetProfileView) -> Seq<Token> {
        seq![
            Token::Text(value.process_path),
            Token::Text(value.window_class),
            Token::Text(value.title_contains),
            Token::Number(value.captured_client_width as nat),
            Token::Number(value.captured_client_height as nat),
            Token::Number(value.captured_dpi as nat),
        ]
    }

    open spec fn printed(value: TargetProfileView) -> TargetProfileView {
        value
    }

    proof fn printed_parts(value: TargetProfileView) {
    }

    proof fn read_back(
        a: TargetProfileView,
        b: TargetProfileView,
        left: Seq<Token>,
        right: Seq<Token>,
    ) {
        lemma_parts_agree(Self::parts(a), left, Self::parts(b), right);
        assert(Self::parts(a)[0] == Self::parts(b)[0]);
        assert(Self::parts(a)[1] == Self::parts(b)[1]);
        assert(Self::parts(a)[2] == Self::parts(b)[2]);
        assert(Self::parts(a)[3] == Self::parts(b)[3]);
        assert(Self::parts(a)[4] == Self::parts(b)[4]);
        assert(Self::parts(a)[5] == Self::parts(b)[5]);
    }

    fn add_parts(&self, out: &mut Fingerprint) {
        let ghost before = out@;
        out.text(self.process_path.as_str());
        out.text(self.window_class.as_str());
        out.text(self.title_contains.as_str());
        out.number(self.captured_client_width as u64);
        out.number(self.captured_client_height as u64);
        out.number(self.captured_dpi as u64);
        assert(out@ =~= before + Self::parts(self@));
    }
}

impl Parts for NegativeCorpusSample {
    open spec fn parts(value: NegativeCorpusSampleView) -> Seq<Token> {
        seq![
            Token::Text(value.stable_id),
            Token::Text(value.content_sha256),
            Token::Number(printed_double(value.measured_score).0 as nat),
            Token::Text(value.evaluation),
        ]
    }

    open spec fn printed(value: NegativeCorpusSampleView) -> NegativeCorpusSampleView {
        NegativeCorpusSampleView {
            measured_score: printed_double(value.measured_score),
            ..value
        }
    }

    proof fn printed_parts(value: NegativeCorpusSampleView) {
    }

    proof fn read_back(
        a: NegativeCorpusSampleView,
        b: NegativeCorpusSampleView,
        left: Seq<Token>,
        right: Seq<Token>,
    ) {
        lemma_parts_agree(Self::parts(a), left, Self::parts(b), right);
        assert(Self::parts(a)[0] == Self::parts(b)[0]);
        assert(Self::parts(a)[1] == Self::parts(b)[1]);
        assert(Self::parts(a)[2] == Self::parts(b)[2]);
        assert(Self::parts(a)[3] == Self::parts(b)[3]);
    }

    fn add_parts(&self, out: &mut Fingerprint) {
        let ghost before = out@;
        out.text(self.stable_id.as_str());
        out.text(self.content_sha256.as_str());
        out.number(print_double(self.measured_score).0);
        out.text(self.evaluation.as_str());
        assert(out@ =~= before + Self::parts(self@));
    }
}

impl Parts for ImageRuleVerificationArtifact {
    open spec fn parts(value: ImageRuleVerificationArtifactView) -> Seq<Token> {
        seq![Token::Text(value.digest)]
    }

    open spec fn printed(value: ImageRuleVerificationArtifactView) -> ImageRuleVerificationArtifactView {
        value
    }

    proof fn printed_parts(value: ImageRuleVerificationArtifactView) {
    }

    proof fn read_back(
        a: ImageRuleVerificationArtifactView,
        b: ImageRuleVerificationArtifactView,
        left: Seq<Token>,
        right: Seq<Token>,
    ) {
        lemma_parts_agree(Self::parts(a), left, Self::parts(b), right);
        assert(Self::parts(a)[0] == Self::parts(b)[0]);
    }

    fn add_parts(&self, out: &mut Fingerprint) {
        let ghost before = out@;
        out.text(self.digest.as_str());
        assert(out@ =~= before + Self::parts(self@));
    }
}

impl Parts for TextRule {
    open spec fn parts(value: TextRuleView) -> Seq<Token> {
        seq![
            Token::Text(value.id),
            Token::Number(value.revision as nat),
            Token::Text(value.region_id),
            Token::Text(value.language),
            Token::Number(preprocess_number(value.preprocess)),
            Token::Text(value.expected),
            Token::Number(match_mode_number(value.match_mode)),
            Token::Number(printed_double(value.threshold).0 as nat),
            Token::Number(flag(value.case_sensitive)),
            Token::Number(flag(value.allow_cross_line)),
            Token::Number(policy_number(value.match_policy)),
            Token::Number(value.poll_interval_ms as nat),
            Token::Number(value.stable_frames as nat),
        ] + limit_parts(value.timeout_ms)
    }

    open spec fn printed(value: TextRuleView) -> TextRuleView {
        TextRuleView { threshold: printed_double(value.threshold), ..value }
    }

    proof fn printed_parts(value: TextRuleView) {
    }

    proof fn read_back(a: TextRuleView, b: TextRuleView, left: Seq<Token>, right: Seq<Token>) {
        let x = Self::parts(a);
        let y = Self::parts(b);
        lemma_parts_agree(x, left, y, right);
        assert(x[0] == y[0]);
        assert(x[1] == y[1]);
        assert(x[2] == y[2]);
        assert(x[3] == y[3]);
        assert(x[4] == y[4]);
        assert(x[5] == y[5]);
        assert(x[6] == y[6]);
        assert(x[7] == y[7]);
        assert(x[8] == y[8]);
        assert(x[9] == y[9]);
        assert(x[10] == y[10]);
        assert(x[11] == y[11]);
        assert(x[12] == y[12]);
        assert(x[13] == y[13]);
        assert(x[14] == y[14]);
        assert(a.timeout_ms == b.timeout_ms);
    }

    fn add_parts(&self, out: &mut Fingerprint) {
        let ghost before = out@;
        out.text(self.id.as_str());
        out.number(self.revision);
        out.text(self.region_id.as_str());
        out.text(self.language.as_str());
        out.number(preprocess_tag(self.preprocess));
        out.text(self.expected.as_str());
        out.number(match_mode_tag(self.match_mode));
        out.number(print_double(self.threshold).0);
        out.number(flag_number(self.case_sensitive));
        out.number(flag_number(self.allow_cross_line));
        out.number(policy_tag(self.match_policy));
        out.number(self.poll_interval_ms);
        out.number(self.stable_frames as u64);
        add_limit(self.timeout_ms, out);
        assert(out@ =~= before + Self::parts(self@));
    }
}

/// The parts of a list of scales.
pub open spec fn scale_parts(scales: Seq<u16>) -> Seq<Token> {
    seq![Token::Number(scales.len())] + Seq::new(
        scales.len(),
        |i: int| Token::Number(scales[i] as nat),
    )
}

proof fn lemma_scales_read_back(
    a: Seq<u16>,
    b: Seq<u16>,
    left: Seq<Token>,
    right: Seq<Token>,
)
    requires
        scale_parts(a) + left == scale_parts(b) + right,
    ensures
        a == b,
        left == right,
{
    let x = scale_parts(a) + left;
    let y = scale_parts(b) + right;
    assert(x[0] == scale_parts(a)[0]);
    assert(y[0] == scale_parts(b)[0]);
    assert(a.len() == b.len());
    lemma_parts_agree(scale_parts(a), left, scale_parts(b), right);
    assert forall|i: int| 0 <= i < a.len() implies a[i] == b[i] by {
        assert(scale_parts(a)[i + 1] == Token::Number(a[i] as nat));
        assert(scale_parts(b)[i + 1] == Token::Number(b[i] as nat));
    }
    assert(a =~= b);
}

fn add_scales(scales: &Vec<u16>, out: &mut Fingerprint)
    requires
        old(out).wf(),
    ensures
        final(out).wf(),
        final(out)@ == old(out)@ + scale_parts(scales@),
{
    let ghost before = out@;
    out.number(scales.len() as u64);
    let mut i: usize = 0;
    while i < scales.len()
        invariant
            i <= scales@.len(),
            out.wf(),
            out@ == before + scale_parts(scales@).take(i + 1),
        decreases scales@.len() - i,
    {
        out.number(scales[i] as u64);
        i += 1;
        assert(out@ =~= before + scale_parts(scales@).take(i + 1));
    }
    assert(scale_parts(scales@).take(i + 1) =~= scale_parts(scales@));
}

/// Joining lists is associative.
proof fn lemma_joined<T>(a: Seq<T>, b: Seq<T>, c: Seq<T>)
    ensures
        (a + b) + c == a + (b + c),
{
    assert((a + b) + c =~= a + (b + c));
}

/// The parts of an image rule and what follows them, taken apart.
proof fn lemma_image_rule_parts(rule: ImageRuleView, left: Seq<Token>)
    ensures
        ImageRule::parts(rule) + left == image_rule_numbers(rule) + (AssetRef::parts(rule.template)
            + (option_parts::<AssetRef>(rule.transparent_mask) + (scale_parts(rule.scales_percent)
            + (option_parts::<ImageRuleVerificationArtifact>(rule.verification) + (limit_parts(
            rule.timeout_ms,
        ) + left))))),
{
    let e = limit_parts(rule.timeout_ms);
    let d = option_parts::<ImageRuleVerificationArtifact>(rule.verification);
    let c = scale_parts(rule.scales_percent);
    let b = option_parts::<AssetRef>(rule.transparent_mask);
    let a = AssetRef::parts(rule.template);
    lemma_joined(d, e, left);
    lemma_joined(c, d + e, left);
    lemma_joined(b, c + (d + e), left);
    lemma_joined(a, b + (c + (d + e)), left);
    lemma_joined(image_rule_numbers(rule), a + (b + (c + (d + e))), left);
}

impl Parts for ImageRule {
    open spec fn parts(value: ImageRuleView) -> Seq<Token> {
        image_rule_numbers(value) + (AssetRef::parts(value.template) + (option_parts::<AssetRef>(
            value.transparent_mask,
        ) + (scale_parts(value.scales_percent) + (option_parts::<ImageRuleVerificationArtifact>(
            value.verification,
        ) + limit_parts(value.timeout_ms)))))
    }

    open spec fn printed(value: ImageRuleView) -> ImageRuleView {
        ImageRuleView {
            threshold: printed_single(value.threshold),
            minimum_runner_up_margin: printed_single(value.minimum_runner_up_margin),
            ..value
        }
    }

    proof fn printed_parts(value: ImageRuleView) {
    }

    proof fn read_back(a: ImageRuleView, b: ImageRuleView, left: Seq<Token>, right: Seq<Token>) {
        let x = image_rule_numbers(a);
        let y = image_rule_numbers(b);
        let a5 = limit_parts(a.timeout_ms) + left;
        let b5 = limit_parts(b.timeout_ms) + right;
        let a4 = option_parts::<ImageRuleVerificationArtifact>(a.verification) + a5;
        let b4 = option_parts::<ImageRuleVerificationArtifact>(b.verification) + b5;
        let a3 = scale_parts(a.scales_percent) + a4;
        let b3 = scale_parts(b.scales_percent) + b4;
        let a2 = option_parts::<AssetRef>(a.transparent_mask) + a3;
        let b2 = option_parts::<AssetRef>(b.transparent_mask) + b3;
        let a1 = AssetRef::parts(a.template) + a2;
        let b1 = AssetRef::parts(b.template) + b2;
        lemma_image_rule_parts(a, left);
        lemma_image_rule_parts(b, right);
        lemma_parts_agree(x, a1, y, b1);
        assert(x[0] == y[0]);
        assert(x[1] == y[1]);
        assert(x[2] == y[2]);
        assert(x[3] == y[3]);
        assert(x[4] == y[4]);
        assert(x[5] == y[5]);
        assert(x[6] == y[6]);
        assert(x[7] == y[7]);
        assert(x[8] == y[8]);
        AssetRef::read_back(a.template, b.template, a2, b2);
        lemma_option_read_back::<AssetRef>(a.transparent_mask, b.transparent_mask, a3, b3);
        lemma_scales_read_back(a.scales_percent, b.scales_percent, a4, b4);
        lemma_option_read_back::<ImageRuleVerificationArtifact>(
            a.verification,
            b.verification,
            a5,
            b5,
        );
        lemma_limit_read_back(a.timeout_ms, b.timeout_ms, left, right);
    }

    fn add_parts(&self, out: &mut Fingerprint) {
        let ghost before = out@;
        out.text(self.id.as_str());
        out.number(self.revision);
        out.text(self.region_id.as_str());
        out.number(print_single(self.threshold).0 as u64);
        out.number(self.stable_frames as u64);
        out.number(self.maximum_center_drift_px as u64);
        out.number(print_single(self.minimum_runner_up_margin).0 as u64);
        out.number(policy_tag(self.match_policy));
        out.number(self.poll_interval_ms);
        self.template.add_parts(out);
        add_option(&self.transparent_mask, out);
        add_scales(&self.scales_percent, out);
        add_option(&self.verification, out);
        add_limit(self.timeout_ms, out);
        assert(out@ =~= before + Self::parts(self@));
    }
}

/// The parts of an image rule that are plain texts and numbers.
pub open spec fn image_rule_numbers(value: ImageRuleView) -> Seq<Token> {
    seq![
        Token::Text(value.id),
        Token::Number(value.revision as nat),
        Token::Text(value.region_id),
        Token::Number(printed_single(value.threshold).0 as nat),
        Token::Number(value.stable_frames as nat),
        Token::Number(value.maximum_center_drift_px as nat),
        Token::Number(printed_single(value.minimum_runner_up_margin).0 as nat),
        Token::Number(policy_number(value.match_policy)),
        Token::Number(value.poll_interval_ms as nat),
    ]
}

} // verus!
