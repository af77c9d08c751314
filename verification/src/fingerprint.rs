//! Fingerprints: texts that two values share exactly where they have the same contents.
use crate::block_equality::lemma_parts_agree;
use crate::text::{append_decimal, append_wide_decimal, decimal, lemma_decimal_injective};
use vstd::prelude::*;
use vstd::string::{StrSliceExecFns, StringExecFns};

verus! {

/// One part of a fingerprint.
#[verifier::ext_equal]
pub ghost enum Token {
    Text(Seq<char>),
    Number(nat),
}

/// The text of one part: its sort, its number or its length, a colon, and a text's characters.
pub open spec fn token_text(token: Token) -> Seq<char> {
    match token {
        Token::Text(text) => seq!['t'] + decimal(text.len()) + seq![':'] + text,
        Token::Number(value) => seq!['n'] + decimal(value) + seq![':'],
    }
}

/// The text of a list of parts.
pub open spec fn render(tokens: Seq<Token>) -> Seq<char>
    decreases tokens.len(),
{
    if tokens.len() == 0 {
        Seq::empty()
    } else {
        token_text(tokens[0]) + render(tokens.drop_first())
    }
}

proof fn lemma_decimal_digits(value: nat)
    ensures
        forall|i: int| 0 <= i < decimal(value).len() ==> (#[trigger] decimal(value)[i]) != ':',
        decimal(value).len() > 0,
    decreases value,
{
    if value >= 10 {
        lemma_decimal_digits(value / 10);
    }
}

/// A numeral before a colon is read back, and so is what follows.
proof fn lemma_numeral_prefix(m: nat, n: nat, left: Seq<char>, right: Seq<char>)
    requires
        decimal(m) + seq![':'] + left == decimal(n) + seq![':'] + right,
    ensures
        m == n,
        left == right,
{
    lemma_decimal_digits(m);
    lemma_decimal_digits(n);
    let x = decimal(m) + seq![':'] + left;
    let y = decimal(n) + seq![':'] + right;
    let a = decimal(m).len() as int;
    let b = decimal(n).len() as int;
    assert(x[a] == ':');
    assert(y[b] == ':');
    if a < b {
        assert(y[a] == decimal(n)[a]);
    } else if b < a {
        assert(x[b] == decimal(m)[b]);
    }
    assert(decimal(m) =~= x.take(a));
    assert(decimal(n) =~= y.take(b));
    lemma_decimal_injective(m, n);
    assert(left =~= x.skip(a + 1));
    assert(right =~= y.skip(b + 1));
}

/// The first part of a text is read back, and so is what follows.
proof fn lemma_token_prefix(a: Token, b: Token, left: Seq<char>, right: Seq<char>)
    requires
        token_text(a) + left == token_text(b) + right,
    ensures
        a == b,
        left == right,
{
    let x = token_text(a) + left;
    let y = token_text(b) + right;
    assert(x[0] == token_text(a)[0]);
    assert(y[0] == token_text(b)[0]);
    match (a, b) {
        (Token::Text(s), Token::Text(t)) => {
            assert(x.skip(1) =~= decimal(s.len()) + seq![':'] + (s + left));
            assert(y.skip(1) =~= decimal(t.len()) + seq![':'] + (t + right));
            lemma_numeral_prefix(s.len(), t.len(), s + left, t + right);
            lemma_parts_agree(s, left, t, right);
        },
        (Token::Number(m), Token::Number(n)) => {
            assert(x.skip(1) =~= decimal(m) + seq![':'] + left);
            assert(y.skip(1) =~= decimal(n) + seq![':'] + right);
            lemma_numeral_prefix(m, n, left, right);
        },
        _ => {},
    }
}

/// Lists of parts with the same text are the same.
pub proof fn lemma_render_injective(left: Seq<Token>, right: Seq<Token>)
    requires
        render(left) == render(right),
    ensures
        left == right,
    decreases left.len(),
{
    if left.len() == 0 {
        if right.len() > 0 {
            assert(token_text(right[0]).len() > 0);
            assert(render(right).len() > 0);
        }
        assert(left =~= right);
    } else if right.len() == 0 {
        assert(token_text(left[0]).len() > 0);
        assert(render(left).len() > 0);
    } else {
        lemma_token_prefix(
            left[0],
            right[0],
            render(left.drop_first()),
            render(right.drop_first()),
        );
        lemma_render_injective(left.drop_first(), right.drop_first());
        assert(left =~= seq![left[0]] + left.drop_first());
        assert(right =~= seq![right[0]] + right.drop_first());
    }
}

pub proof fn lemma_render_add(left: Seq<Token>, right: Seq<Token>)
    ensures
        render(left + right) == render(left) + render(right),
    decreases left.len(),
{
    if left.len() == 0 {
        assert(left + right =~= right);
        assert(render(left) + render(right) =~= render(right));
    } else {
        assert((left + right).drop_first() =~= left.drop_first() + right);
        lemma_render_add(left.drop_first(), right);
        assert(render(left + right) =~= render(left) + render(right));
    }
}

pub proof fn lemma_render_push(tokens: Seq<Token>, token: Token)
    ensures
        render(tokens.push(token)) == render(tokens) + token_text(token),
{
    lemma_render_add(tokens, seq![token]);
    assert(tokens + seq![token] =~= tokens.push(token));
    reveal_with_fuel(render, 2);
    assert(seq![token].drop_first() =~= Seq::empty());
    assert(render(seq![token]) =~= token_text(token));
}

/// A fingerprint under construction.
pub struct Fingerprint {
    text: String,
    tokens: Ghost<Seq<Token>>,
}

impl View for Fingerprint {
    type V = Seq<Token>;

    closed spec fn view(&self) -> Seq<Token> {
        self.tokens@
    }
}

impl Fingerprint {
    /// The text is that of the parts.
    pub closed spec fn wf(&self) -> bool {
        self.text@ == render(self.tokens@)
    }

    pub fn new() -> (fingerprint: Self)
        ensures
            fingerprint.wf(),
            fingerprint@ == Seq::<Token>::empty(),
    {
        Fingerprint { text: String::new(), tokens: Ghost(Seq::empty()) }
    }

    pub fn text(&mut self, part: &str)
        requires
            old(self).wf(),
        ensures
            final(self).wf(),
            final(self)@ == old(self)@.push(Token::Text(part@)),
    {
        let ghost before = self.text@;
        self.text.append("t");
        append_wide_decimal(&mut self.text, part.unicode_len() as u128);
        self.text.append(":");
        self.text.append(part);
        proof {
            reveal_strlit("t");
            reveal_strlit(":");
            lemma_render_push(self.tokens@, Token::Text(part@));
            assert("t"@ =~= seq!['t']);
            assert(":"@ =~= seq![':']);
            assert(self.text@ =~= before + token_text(Token::Text(part@)));
        }
        self.tokens = Ghost(self.tokens@.push(Token::Text(part@)));
    }

    pub fn number(&mut self, part: u64)
        requires
            old(self).wf(),
        ensures
            final(self).wf(),
            final(self)@ == old(self)@.push(Token::Number(part as nat)),
    {
        let ghost before = self.text@;
        self.text.append("n");
        append_decimal(&mut self.text, part);
        self.text.append(":");
        proof {
            reveal_strlit("n");
            reveal_strlit(":");
            lemma_render_push(self.tokens@, Token::Number(part as nat));
            assert("n"@ =~= seq!['n']);
            assert(":"@ =~= seq![':']);
            assert(self.text@ =~= before + token_text(Token::Number(part as nat)));
        }
        self.tokens = Ghost(self.tokens@.push(Token::Number(part as nat)));
    }

    pub fn finish(self) -> (text: String)
        requires
            self.wf(),
        ensures
            text@ == render(self@),
    {
        self.text
    }
}

} // verus!
