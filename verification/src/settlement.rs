//! Withdrawals that wait to be settled outside the game, and their encoding.

use vstd::prelude::*;

verus! {

/// Operation code of a withdrawal.
pub const WITHDRAW: u8 = 1;

/// A withdrawal to settle.
#[derive(Clone, Copy, Debug)]
pub struct WithdrawInfo {
    /// The operation code in the low byte, the nonce above it.
    pub opinfo: u64,
    pub account_index: u32,
    pub object_index: u32,
    /// The amount as four words, the least significant first.
    pub amount: [u64; 4],
    pub sender: [u8; 32],
}

/// Byte `k` of a word, counted from the least significant.
pub open spec fn spec_byte(x: u64, k: int) -> u8 {
    ((x >> ((8 * k) as u64)) & 0xff) as u8
}

/// The eight bytes of a word, the least significant first.
pub open spec fn spec_le_bytes(x: u64) -> Seq<u8> {
    Seq::new(8, |k: int| spec_byte(x, k))
}

/// The eight bytes of a word, the most significant first.
pub open spec fn spec_be_bytes(x: u64) -> Seq<u8> {
    Seq::new(8, |k: int| spec_byte(x, 7 - k))
}

/// The four bytes of a half word, the most significant first.
pub open spec fn spec_be_bytes_u32(x: u32) -> Seq<u8> {
    Seq::new(4, |k: int| spec_byte(x as u64, 3 - k))
}

/// The bytes of four words one after another, each with its least significant
/// byte first.
pub open spec fn spec_encode_address(v: Seq<u64>) -> Seq<u8> {
    spec_le_bytes(v[0]) + spec_le_bytes(v[1]) + spec_le_bytes(v[2]) + spec_le_bytes(v[3])
}

/// The address of 32 bytes that `spec_encode_address` spells out.
pub open spec fn spec_address(v: Seq<u64>) -> [u8; 32] {
    choose|address: [u8; 32]| address@ == spec_encode_address(v)
}

/// The operation word of a withdrawal: the code in the low byte, and above it
/// the nonce, of which the top byte is lost.
pub open spec fn spec_opinfo(nounce: u64) -> u64 {
    ((WITHDRAW as u64) + (nounce << 8)) as u64
}

/// The encoding of a withdrawal: operation word, account and object index, the
/// amount from its most significant word down, each with its most significant
/// byte first, and the sender.
pub open spec fn spec_withdraw_bytes(info: WithdrawInfo) -> Seq<u8> {
    spec_be_bytes(info.opinfo) + spec_be_bytes_u32(info.account_index) + spec_be_bytes_u32(
        info.object_index,
    ) + spec_be_bytes(info.amount[3]) + spec_be_bytes(info.amount[2]) + spec_be_bytes(info.amount[1])
        + spec_be_bytes(info.amount[0]) + info.sender@
}

/// The encodings of the withdrawals one after another.
pub open spec fn spec_settlement_bytes(infos: Seq<WithdrawInfo>) -> Seq<u8>
    decreases infos.len(),
{
    if infos.len() == 0 {
        Seq::empty()
    } else {
        spec_settlement_bytes(infos.drop_last()) + spec_withdraw_bytes(infos.last())
    }
}

/// Byte `k` of a word, counted from the least significant.
pub fn byte_of(x: u64, k: u64) -> (byte: u8)
    requires
        k < 8,
    ensures
        byte == spec_byte(x, k as int),
{
    let shift: u64 = 8 * k;
    assert(((x >> shift) & 0xff) < 256) by (bit_vector);
    ((x >> shift) & 0xff) as u8
}

/// Appends the eight bytes of a word, the most significant first.
pub fn push_be_bytes(bytes: &mut Vec<u8>, x: u64)
    ensures
        final(bytes)@ == old(bytes)@ + spec_be_bytes(x),
{
    let mut k: u64 = 0;
    while k < 8
        invariant
            k <= 8,
            bytes@ == old(bytes)@ + spec_be_bytes(x).take(k as int),
        decreases 8 - k,
    {
        bytes.push(byte_of(x, 7 - k));
        proof {
            assert(spec_be_bytes(x).take(k + 1) =~= spec_be_bytes(x).take(k as int).push(
                spec_be_bytes(x)[k as int],
            ));
        }
        k += 1;
    }
    proof {
        assert(spec_be_bytes(x).take(8) =~= spec_be_bytes(x));
    }
}

/// Appends the four bytes of a half word, the most significant first.
pub fn push_be_bytes_u32(bytes: &mut Vec<u8>, x: u32)
    ensures
        final(bytes)@ == old(bytes)@ + spec_be_bytes_u32(x),
{
    let mut k: u64 = 0;
    while k < 4
        invariant
            k <= 4,
            bytes@ == old(bytes)@ + spec_be_bytes_u32(x).take(k as int),
        decreases 4 - k,
    {
        bytes.push(byte_of(x as u64, 3 - k));
        proof {
            assert(spec_be_bytes_u32(x).take(k + 1) =~= spec_be_bytes_u32(x).take(k as int).push(
                spec_be_bytes_u32(x)[k as int],
            ));
        }
        k += 1;
    }
    proof {
        assert(spec_be_bytes_u32(x).take(4) =~= spec_be_bytes_u32(x));
    }
}

/// The first four words as an address of 32 bytes, each word with its least
/// significant byte first.
pub fn encode_address(v: &Vec<u64>) -> (address: [u8; 32])
    requires
        v.len() >= 4,
    ensures
        address@ == spec_encode_address(v@),
        address == spec_address(v@),
{
    let mut address: [u8; 32] = [0u8; 32];
    let mut i: usize = 0;
    while i < 4
        invariant
            i <= 4,
            v.len() >= 4,
            forall|w: int, k: int|
                0 <= w < i && 0 <= k < 8 ==> address@[#[trigger] (8 * w + k)] == spec_byte(v@[w], k),
        decreases 4 - i,
    {
        let word: u64 = v[i];
        let mut k: usize = 0;
        while k < 8
            invariant
                k <= 8,
                i < 4,
                word == v@[i as int],
                forall|w: int, m: int|
                    0 <= w < i && 0 <= m < 8 ==> address@[#[trigger] (8 * w + m)] == spec_byte(v@[w], m),
                forall|m: int| 0 <= m < k ==> address@[8 * i + m] == spec_byte(word, m),
            decreases 8 - k,
        {
            address[8 * i + k] = byte_of(word, k as u64);
            k += 1;
        }
        i += 1;
    }
    proof {
        let want = spec_encode_address(v@);
        assert forall|j: int| 0 <= j < 32 implies address@[j] == want[j] by {
            let w = j / 8;
            let k = j % 8;
            assert(j == 8 * w + k);
            assert(address@[8 * w + k] == spec_byte(v@[w], k));
        }
        assert(address@ =~= want);
        assert(address =~= spec_address(v@));
    }
    address
}

impl WithdrawInfo {
    pub fn new(
        nounce: u64,
        account_index: u32,
        object_index: u32,
        amount: [u64; 4],
        sender: [u8; 32],
    ) -> (info: Self)
        ensures
            info == (WithdrawInfo {
                opinfo: spec_opinfo(nounce),
                account_index,
                object_index,
                amount,
                sender,
            }),
    {
        let high: u64 = nounce << 8;
        assert(high <= 0xffff_ffff_ffff_ff00) by (bit_vector)
            requires
                high == nounce << 8,
        ;
        WithdrawInfo { opinfo: (WITHDRAW as u64) + high, account_index, object_index, amount, sender }
    }

    /// Appends the encoding of the withdrawal, every number with its most
    /// significant byte first.
    pub fn to_be_bytes(&self, bytes: &mut Vec<u8>)
        ensures
            final(bytes)@ == old(bytes)@ + spec_withdraw_bytes(*self),
    {
        push_be_bytes(bytes, self.opinfo);
        push_be_bytes_u32(bytes, self.account_index);
        push_be_bytes_u32(bytes, self.object_index);
        push_be_bytes(bytes, self.amount[3]);
        push_be_bytes(bytes, self.amount[2]);
        push_be_bytes(bytes, self.amount[1]);
        push_be_bytes(bytes, self.amount[0]);
        let mut k: usize = 0;
        let ghost head = bytes@;
        while k < 32
            invariant
                k <= 32,
                bytes@ == head + self.sender@.take(k as int),
            decreases 32 - k,
        {
            bytes.push(self.sender[k]);
            proof {
                assert(self.sender@.take(k + 1) =~= self.sender@.take(k as int).push(self.sender@[k as int]));
            }
            k += 1;
        }
        proof {
            assert(self.sender@.take(32) =~= self.sender@);
            assert(bytes@ =~= old(bytes)@ + spec_withdraw_bytes(*self));
        }
    }
}

/// The withdrawals that wait to be settled, oldest first.
#[derive(Debug)]
pub struct SettlementInfo(pub Vec<WithdrawInfo>);

impl View for SettlementInfo {
    type V = Seq<WithdrawInfo>;

    open spec fn view(&self) -> Seq<WithdrawInfo> {
        self.0@
    }
}

impl SettlementInfo {
    pub fn new() -> (settlement: Self)
        ensures
            settlement@ == Seq::<WithdrawInfo>::empty(),
    {
        SettlementInfo(Vec::new())
    }

    /// Adds a withdrawal behind those that wait.
    pub fn append_settlement(&mut self, info: WithdrawInfo)
        ensures
            final(self)@ == old(self)@.push(info),
    {
        self.0.push(info);
    }

    /// Hands out the encodings of the withdrawals that wait, oldest first, and
    /// forgets them.
    pub fn flush_settlement(&mut self) -> (bytes: Vec<u8>)
        ensures
            bytes@ == spec_settlement_bytes(old(self)@),
            final(self)@ == Seq::<WithdrawInfo>::empty(),
    {
        let mut bytes: Vec<u8> = Vec::new();
        let mut i: usize = 0;
        proof {
            assert(self@.take(0) =~= Seq::empty());
        }
        while i < self.0.len()
            invariant
                i <= self.0.len(),
                *self == *old(self),
                bytes@ == spec_settlement_bytes(self@.take(i as int)),
            decreases self.0.len() - i,
        {
            proof {
                assert(self@.take(i + 1).drop_last() =~= self@.take(i as int));
            }
            let info: WithdrawInfo = self.0[i];
            info.to_be_bytes(&mut bytes);
            i += 1;
        }
        proof {
            assert(self@.take(i as int) =~= self@);
        }
        self.0 = Vec::new();
        bytes
    }
}

} // verus!
