//! Fresh identifiers for chats and devices.
//!
//! The raw identifiers come from `hyperid` (a random base and a counter);
//! this module renders their bytes as lowercase hexadecimal text, which is
//! safe to carry in a URL path or query.
use hyperid::HyperId;
use vstd::prelude::*;

verus! {

/// `hyperid::HyperId`, the generator of identifiers.
#[verifier::external_type_specification]
#[verifier::external_body]
pub struct ExHyperId(HyperId);

/// `hyperid::HyperId::new` draws a random base for a new generator, whose
/// counter starts at 0; nothing is claimed of it.
pub assume_specification[ HyperId::new ]() -> (generator: HyperId);

/// The identifiers issued so far number their counter bytes in order: each
/// has 17 bytes, and the counter byte (the last one) of the `k`-th is
/// `k + 1` modulo 256.
pub open spec fn counter_chain(ids: Seq<Seq<u8>>) -> bool {
    forall|k: int|
        0 <= k < ids.len() ==> (#[trigger] ids[k]).len() == 17 && ids[k][16] == (k + 1) % 256
}

/// A generator of identifiers, with the record of the identifiers (as bytes)
/// it has issued.
pub struct IdGenerator {
    generator: HyperId,
    issued: Ghost<Seq<Seq<u8>>>,
}

impl IdGenerator {
    /// The identifiers issued so far, oldest first.
    pub closed spec fn issued(&self) -> Seq<Seq<u8>> {
        self.issued@
    }

    /// The issued identifiers number their counter bytes in order.
    pub open spec fn wf(&self) -> bool {
        counter_chain(self.issued())
    }

    /// A generator with a fresh random base that has issued nothing.
    pub fn new() -> (r: IdGenerator)
        ensures
            r.wf(),
            r.issued() == Seq::<Seq<u8>>::empty(),
    {
        IdGenerator { generator: HyperId::new(), issued: Ghost(Seq::empty()) }
    }
}

/// Steps the generator with `hyperid::HyperId::generate` and returns the
/// bytes of the new identifier (`hyperid::Id::into_bytes`: the 16 bytes of
/// the base, big endian, then the counter byte). `generate` adds one to the
/// counter, going from 255 back to 0 and then drawing a new random base; the
/// counter starts at 0 in `HyperId::new`, and nothing but this function
/// steps the `HyperId` inside an `IdGenerator`. The claim is that the bytes
/// are 17, that the counter byte of the `n`-th identifier issued is `n`
/// modulo 256, and that the identifier is recorded as issued; nothing is
/// claimed of the 16 bytes of the random base.
#[verifier::external_body]
fn next_id_bytes(generator: &mut IdGenerator) -> (bytes: Vec<u8>)
    ensures
        bytes@.len() == 17,
        bytes@[16] == (old(generator).issued().len() + 1) % 256,
        final(generator).issued() == old(generator).issued().push(bytes@),
{
    generator.generator.generate().into_bytes()
}

/// The hexadecimal digit for `n` (which is below 16).
pub open spec fn hex_digit(n: int) -> char {
    if n == 0 {
        '0'
    } else if n == 1 {
        '1'
    } else if n == 2 {
        '2'
    } else if n == 3 {
        '3'
    } else if n == 4 {
        '4'
    } else if n == 5 {
        '5'
    } else if n == 6 {
        '6'
    } else if n == 7 {
        '7'
    } else if n == 8 {
        '8'
    } else if n == 9 {
        '9'
    } else if n == 10 {
        'a'
    } else if n == 11 {
        'b'
    } else if n == 12 {
        'c'
    } else if n == 13 {
        'd'
    } else if n == 14 {
        'e'
    } else {
        'f'
    }
}

/// The lowercase hexadecimal rendering of `bytes`, two digits per byte, the
/// high half first.
pub open spec fn hex_text(bytes: Seq<u8>) -> Seq<char>
    decreases bytes.len(),
{
    if bytes.len() == 0 {
        Seq::empty()
    } else {
        hex_text(bytes.drop_last()) + seq![
            hex_digit((bytes.last() / 16) as int),
            hex_digit((bytes.last() % 16) as int),
        ]
    }
}

/// The text of one hexadecimal digit.
fn digit_text(n: u8) -> (s: &'static str)
    requires
        n < 16,
    ensures
        s@ == seq![hex_digit(n as int)],
{
    if n == 0 {
        proof {
            reveal_strlit("0");
        }
        "0"
    } else if n == 1 {
        proof {
            reveal_strlit("1");
        }
        "1"
    } else if n == 2 {
        proof {
            reveal_strlit("2");
        }
        "2"
    } else if n == 3 {
        proof {
            reveal_strlit("3");
        }
        "3"
    } else if n == 4 {
        proof {
            reveal_strlit("4");
        }
        "4"
    } else if n == 5 {
        proof {
            reveal_strlit("5");
        }
        "5"
    } else if n == 6 {
        proof {
            reveal_strlit("6");
        }
        "6"
    } else if n == 7 {
        proof {
            reveal_strlit("7");
        }
        "7"
    } else if n == 8 {
        proof {
            reveal_strlit("8");
        }
        "8"
    } else if n == 9 {
        proof {
            reveal_strlit("9");
        }
        "9"
    } else if n == 10 {
        proof {
            reveal_strlit("a");
        }
        "a"
    } else if n == 11 {
        proof {
            reveal_strlit("b");
        }
        "b"
    } else if n == 12 {
        proof {
            reveal_strlit("c");
        }
        "c"
    } else if n == 13 {
        proof {
            reveal_strlit("d");
        }
        "d"
    } else if n == 14 {
        proof {
            reveal_strlit("e");
        }
        "e"
    } else {
        proof {
            reveal_strlit("f");
        }
        "f"
    }
}

/// Renders bytes as lowercase hexadecimal text.
pub fn to_hex(bytes: &Vec<u8>) -> (text: String)
    ensures
        text@ == hex_text(bytes@),
        text@.len() == 2 * bytes@.len(),
{
    let mut text = String::new();
    let mut i: usize = 0;
    while i < bytes.len()
        invariant
            i <= bytes@.len(),
            text@ == hex_text(bytes@.take(i as int)),
            text@.len() == 2 * i,
        decreases bytes.len() - i,
    {
        let b = bytes[i];
        let ghost before = text@;
        text.append(digit_text(b / 16));
        text.append(digit_text(b % 16));
        proof {
            let prefix = bytes@.take(i + 1);
            assert(prefix.drop_last() =~= bytes@.take(i as int));
            assert(prefix.last() == b);
            assert(text@ =~= hex_text(prefix));
        }
        i = i + 1;
    }
    assert(bytes@.take(bytes@.len() as int) =~= bytes@);
    text
}

/// `hex_text` writes two digits per byte: those of byte `k` stand at `2k`
/// and `2k + 1`.
pub proof fn lemma_hex_text_digits(bytes: Seq<u8>)
    ensures
        hex_text(bytes).len() == 2 * bytes.len(),
        forall|k: int|
            0 <= k < bytes.len() ==> hex_text(bytes)[2 * k] == hex_digit((bytes[k] / 16) as int)
                && hex_text(bytes)[2 * k + 1] == hex_digit((bytes[k] % 16) as int),
    decreases bytes.len(),
{
    if bytes.len() > 0 {
        let front = bytes.drop_last();
        lemma_hex_text_digits(front);
        assert forall|k: int| 0 <= k < bytes.len() implies hex_text(bytes)[2 * k] == hex_digit(
            (bytes[k] / 16) as int,
        ) && hex_text(bytes)[2 * k + 1] == hex_digit((bytes[k] % 16) as int) by {
            if k < front.len() {
                assert(front[k] == bytes[k]);
            }
        }
    }
}

/// Distinct digits are written differently.
proof fn lemma_hex_digit_injective(a: int, b: int)
    requires
        0 <= a < 16,
        0 <= b < 16,
        hex_digit(a) == hex_digit(b),
    ensures
        a == b,
{
}

/// Byte sequences of one length are written differently when they are
/// different: `hex_text` loses nothing.
pub proof fn lemma_hex_text_injective(a: Seq<u8>, b: Seq<u8>)
    requires
        a.len() == b.len(),
        hex_text(a) == hex_text(b),
    ensures
        a == b,
{
    lemma_hex_text_digits(a);
    lemma_hex_text_digits(b);
    assert forall|k: int| 0 <= k < a.len() implies a[k] == b[k] by {
        assert(hex_text(a)[2 * k] == hex_text(b)[2 * k]);
        assert(hex_text(a)[2 * k + 1] == hex_text(b)[2 * k + 1]);
        lemma_hex_digit_injective((a[k] / 16) as int, (b[k] / 16) as int);
        lemma_hex_digit_injective((a[k] % 16) as int, (b[k] % 16) as int);
    }
    assert(a =~= b);
}

/// Identifiers issued by one generator fewer than 256 apart differ, and so
/// do their texts: their counter bytes differ.
pub proof fn law_recent_ids_distinct(ids: Seq<Seq<u8>>, i: int, j: int)
    requires
        counter_chain(ids),
        0 <= i < j < ids.len(),
        j - i < 256,
    ensures
        ids[i] != ids[j],
        hex_text(ids[i]) != hex_text(ids[j]),
{
    assert(ids[i][16] == (i + 1) % 256);
    assert(ids[j][16] == (j + 1) % 256);
    assert((i + 1) % 256 != (j + 1) % 256);
    if hex_text(ids[i]) == hex_text(ids[j]) {
        lemma_hex_text_injective(ids[i], ids[j]);
    }
}

/// A fresh identifier from `generator`, as text: the hexadecimal rendering
/// of the 17 bytes of the next `hyperid` identifier. It differs from the
/// last 255 identifiers the generator issued before it.
pub fn fresh_id(generator: &mut IdGenerator) -> (id: String)
    requires
        old(generator).wf(),
    ensures
        final(generator).wf(),
        final(generator).issued().len() == old(generator).issued().len() + 1,
        final(generator).issued().drop_last() == old(generator).issued(),
        id@ == hex_text(final(generator).issued().last()),
        id@.len() == 34,
        forall|k: int|
            0 <= k < old(generator).issued().len() && old(generator).issued().len() - k < 256
                ==> #[trigger] hex_text(old(generator).issued()[k]) != id@,
{
    let ghost before = generator.issued();
    let bytes = next_id_bytes(generator);
    proof {
        let after = generator.issued();
        assert(after.drop_last() =~= before);
        assert forall|k: int| 0 <= k < after.len() implies (#[trigger] after[k]).len() == 17
            && after[k][16] == (k + 1) % 256 by {
            if k < before.len() {
                assert(after[k] == before[k]);
            }
        }
        assert forall|k: int| 0 <= k < before.len() && before.len() - k < 256 implies #[trigger] hex_text(
            before[k],
        ) != hex_text(after.last()) by {
            assert(after[k] == before[k]);
            law_recent_ids_distinct(after, k, before.len() as int);
        }
    }
    to_hex(&bytes)
}

} // verus!
