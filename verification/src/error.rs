//! What can go wrong with an account.
use vstd::prelude::*;

use crate::base58;

verus! {

/// Why an account cannot be indexed.
#[derive(Debug, PartialEq, Eq)]
pub enum IndexError {
    /// The account says that it holds metadata, and does not.
    InvalidMetadata { pubkey: [u8; 32], cause: String },
}

/// What an [`IndexError`] says.
pub enum IndexErrorView {
    InvalidMetadata { pubkey: Seq<u8>, cause: Seq<char> },
}

impl View for IndexError {
    type V = IndexErrorView;

    open spec fn view(&self) -> IndexErrorView {
        match self {
            IndexError::InvalidMetadata { pubkey, cause } => IndexErrorView::InvalidMetadata {
                pubkey: pubkey@,
                cause: cause@,
            },
        }
    }
}

/// An error in words.
pub open spec fn error_message(error: IndexErrorView) -> Seq<char> {
    match error {
        IndexErrorView::InvalidMetadata { pubkey, cause } => {
            "Invalid token-metadata v1 metadata acc "@ + base58::base58(pubkey) + ": "@ + cause
        },
    }
}

impl IndexError {
    /// Says in words which account is wrong, and how.
    pub fn message(&self) -> (text: String)
        ensures
            text@ == error_message(self@),
            self matches IndexError::InvalidMetadata { pubkey, cause } && text@
                == "Invalid token-metadata v1 metadata acc "@ + base58::base58(pubkey@) + ": "@
                + cause@,
    {
        match self {
            IndexError::InvalidMetadata { pubkey, cause } => {
                let mut text = String::new();
                text.append("Invalid token-metadata v1 metadata acc ");
                text.append(base58::encode_key(pubkey).as_str());
                text.append(": ");
                text.append(cause.as_str());
                assert(text@ =~= error_message(self@));
                text
            },
        }
    }
}

/// Where a text is followed by a separator that begins with a character it does not hold, the
/// two can be told apart.
pub(crate) proof fn lemma_separated(
    a: Seq<char>,
    x: Seq<char>,
    b: Seq<char>,
    y: Seq<char>,
    separator: Seq<char>,
)
    requires
        separator.len() > 0,
        forall|i: int| 0 <= i < a.len() ==> #[trigger] a[i] != separator[0],
        forall|i: int| 0 <= i < b.len() ==> #[trigger] b[i] != separator[0],
        a + separator + x == b + separator + y,
    ensures
        a == b,
        x == y,
{
    let left = a + separator + x;
    let right = b + separator + y;
    if a.len() < b.len() {
        assert(left[a.len() as int] == separator[0]);
        assert(right[a.len() as int] == b[a.len() as int]);
    } else if a.len() > b.len() {
        assert(right[b.len() as int] == separator[0]);
        assert(left[b.len() as int] == a[b.len() as int]);
    }
    assert(left.len() == a.len() + separator.len() + x.len());
    assert(right.len() == b.len() + separator.len() + y.len());
    assert(a =~= left.take(a.len() as int));
    assert(b =~= right.take(a.len() as int));
    assert(x =~= left.skip(a.len() as int + separator.len() as int));
    assert(y =~= right.skip(a.len() as int + separator.len() as int));
}

/// The base58 text of a key holds neither colons nor spaces.
pub(crate) proof fn lemma_no_separators(key: Seq<u8>, i: int)
    requires
        0 <= i < base58::base58(key).len(),
    ensures
        base58::base58(key)[i] != ':',
        base58::base58(key)[i] != ' ',
{
    base58::lemma_base58_chars(key, i);
    reveal_strlit("123456789ABCDEFGHJKLMNPQRSTUVWXYZabcdefghijkmnopqrstuvwxyz");
}

/// The message of an error says which account is wrong, and how: it can be told from the
/// message, which is the one that says so in these words.
pub proof fn law_messages_tell_the_account_and_the_cause(
    p: Seq<u8>,
    a: Seq<char>,
    q: Seq<u8>,
    b: Seq<char>,
)
    requires
        p.len() == 32,
        q.len() == 32,
    ensures
        error_message(IndexErrorView::InvalidMetadata { pubkey: p, cause: a })
            == "Invalid token-metadata v1 metadata acc "@ + base58::base58(p) + ": "@ + a,
        error_message(IndexErrorView::InvalidMetadata { pubkey: p, cause: a }) == error_message(
            IndexErrorView::InvalidMetadata { pubkey: q, cause: b },
        ) ==> p == q && a == b,
{
    let start = "Invalid token-metadata v1 metadata acc "@;
    let (x, y) = (base58::base58(p), base58::base58(q));
    let left = start + x + ": "@ + a;
    let right = start + y + ": "@ + b;
    if left == right {
        reveal_strlit(": ");
        assert(left.skip(start.len() as int) =~= x + ": "@ + a);
        assert(right.skip(start.len() as int) =~= y + ": "@ + b);
        assert forall|i: int| 0 <= i < x.len() implies #[trigger] x[i] != ": "@[0] by {
            lemma_no_separators(p, i);
        }
        assert forall|i: int| 0 <= i < y.len() implies #[trigger] y[i] != ": "@[0] by {
            lemma_no_separators(q, i);
        }
        lemma_separated(x, a, y, b, ": "@);
        base58::law_base58_is_injective(p, q);
    }
}

} // verus!
