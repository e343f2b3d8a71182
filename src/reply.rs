//! Recognising the device's answer in its reply stream.
use vstd::prelude::*;
use vstd::utf8::valid_utf8;

use crate::outcome::{UploadError, UploadResult};
use crate::text::{all_ascii, is_utf8, lemma_ascii_is_utf8};

verus! {

/// Number of trailing reply bytes searched for an answer: the longest answer.
pub const WINDOW_LEN: usize = 11;

/// `ALL_GOOD`: the program was stored.
pub open spec fn all_good_token() -> Seq<u8> {
    seq![65u8, 76, 76, 95, 71, 79, 79, 68]
}

/// `OO_FLASH`: no room in flash memory.
pub open spec fn out_of_flash_token() -> Seq<u8> {
    seq![79u8, 79, 95, 70, 76, 65, 83, 72]
}

/// `OO_METADATA`: no free program slot.
pub open spec fn out_of_metadata_token() -> Seq<u8> {
    seq![79u8, 79, 95, 77, 69, 84, 65, 68, 65, 84, 65]
}

/// `token` occurs in `w` starting at `i`.
pub open spec fn token_at(w: Seq<u8>, token: Seq<u8>, i: int) -> bool {
    0 <= i && i + token.len() <= w.len() && w.subrange(i, i + token.len()) == token
}

/// `token` occurs somewhere in `w`.
pub open spec fn has_token(w: Seq<u8>, token: Seq<u8>) -> bool {
    exists|i: int| token_at(w, token, i)
}

/// The answer that a window of reply bytes shows, if any: the window is read
/// as text, and the answers are looked for in a fixed order.
pub open spec fn classify(w: Seq<u8>) -> Option<UploadResult> {
    if !valid_utf8(w) {
        None
    } else if has_token(w, all_good_token()) {
        Some(UploadResult::AllGood)
    } else if has_token(w, out_of_flash_token()) {
        Some(UploadResult::OutOfFlash)
    } else if has_token(w, out_of_metadata_token()) {
        Some(UploadResult::OutOfMetadata)
    } else {
        None
    }
}

/// Whether `token` occurs in `w` starting at `i`.
fn matches_at(w: &[u8], token: &[u8], i: usize) -> (r: bool)
    requires
        i + token.len() <= w.len(),
    ensures
        r == token_at(w@, token@, i as int),
{
    let mut j: usize = 0;
    while j < token.len()
        invariant
            j <= token@.len(),
            i + token.len() <= w.len(),
            forall|k: int| 0 <= k < j ==> w@[i + k] == token@[k],
        decreases token@.len() - j,
    {
        if w[i + j] != token[j] {
            assert(w@.subrange(i as int, i + token@.len())[j as int] != token@[j as int]);
            return false;
        }
        j = j + 1;
    }
    assert(w@.subrange(i as int, i + token@.len()) =~= token@);
    true
}

/// Whether `token` occurs anywhere in `w`.
pub fn contains_token(w: &[u8], token: &[u8]) -> (r: bool)
    ensures
        r == has_token(w@, token@),
{
    if token.len() > w.len() {
        return false;
    }
    let last = w.len() - token.len();
    let mut i: usize = 0;
    while i < last
        invariant
            i <= last,
            last + token.len() == w.len(),
            forall|k: int| 0 <= k < i ==> !token_at(w@, token@, k),
        decreases last - i,
    {
        if matches_at(w, token, i) {
            return true;
        }
        i = i + 1;
    }
    let r = matches_at(w, token, last);
    assert(!r ==> forall|k: int| !token_at(w@, token@, k));
    r
}

/// The answer that `w` shows, if any: `w` is read as text and searched
/// for `ALL_GOOD`, then `OO_FLASH`, then `OO_METADATA`.
pub fn classify_window(w: &[u8]) -> (r: Option<UploadResult>)
    ensures
        r == classify(w@),
{
    if !is_utf8(w) {
        return None;
    }
    let all_good: [u8; 8] = [65, 76, 76, 95, 71, 79, 79, 68];
    let out_of_flash: [u8; 8] = [79, 79, 95, 70, 76, 65, 83, 72];
    let out_of_metadata: [u8; 11] = [79, 79, 95, 77, 69, 84, 65, 68, 65, 84, 65];
    assert(all_good@ =~= all_good_token());
    assert(out_of_flash@ =~= out_of_flash_token());
    assert(out_of_metadata@ =~= out_of_metadata_token());
    if contains_token(w, all_good.as_slice()) {
        Some(UploadResult::AllGood)
    } else if contains_token(w, out_of_flash.as_slice()) {
        Some(UploadResult::OutOfFlash)
    } else if contains_token(w, out_of_metadata.as_slice()) {
        Some(UploadResult::OutOfMetadata)
    } else {
        None
    }
}

/// The window after `byte` arrives: the oldest byte leaves, `byte` comes last.
pub open spec fn shift_in(w: Seq<u8>, byte: u8) -> Seq<u8> {
    w.drop_first().push(byte)
}

/// The answer found while `stream` arrives byte by byte into window `w`:
/// the first one that a window shows, or none.
pub open spec fn scan(w: Seq<u8>, stream: Seq<u8>) -> Option<UploadResult>
    decreases stream.len(),
{
    if stream.len() == 0 {
        None
    } else {
        let next = shift_in(w, stream[0]);
        match classify(next) {
            Some(answer) => Some(answer),
            None => scan(next, stream.drop_first()),
        }
    }
}

/// The window once `stream` has come into `w`: the last bytes of both.
pub open spec fn window_after(w: Seq<u8>, stream: Seq<u8>) -> Seq<u8> {
    (w + stream).subrange(stream.len() as int, (w.len() + stream.len()) as int)
}

/// The word by which the device gives `answer`.
pub open spec fn answer_token(answer: UploadResult) -> Seq<u8> {
    match answer {
        UploadResult::AllGood => all_good_token(),
        UploadResult::OutOfFlash => out_of_flash_token(),
        UploadResult::OutOfMetadata => out_of_metadata_token(),
    }
}

/// Scanning a reply in two pieces: the second piece is only looked at when
/// the first showed no answer, and then from the window the first left.
pub proof fn lemma_scan_append(w: Seq<u8>, a: Seq<u8>, b: Seq<u8>)
    requires
        w.len() == WINDOW_LEN,
    ensures
        scan(w, a + b) == match scan(w, a) {
            Some(answer) => Some(answer),
            None => scan(window_after(w, a), b),
        },
    decreases a.len(),
{
    if a.len() == 0 {
        assert(a + b =~= b);
        assert(window_after(w, a) =~= w);
    } else {
        let next = shift_in(w, a[0]);
        assert((a + b)[0] == a[0]);
        assert((a + b).drop_first() =~= a.drop_first() + b);
        lemma_scan_append(next, a.drop_first(), b);
        assert(window_after(next, a.drop_first()) =~= window_after(w, a));
    }
}

/// One more reply byte: it is only looked at when the bytes before it showed
/// no answer, and then the window it enters decides.
pub proof fn lemma_scan_push(w: Seq<u8>, stream: Seq<u8>, byte: u8)
    requires
        w.len() == WINDOW_LEN,
    ensures
        window_after(w, stream.push(byte)) == shift_in(window_after(w, stream), byte),
        scan(w, stream.push(byte)) == match scan(w, stream) {
            Some(answer) => Some(answer),
            None => classify(shift_in(window_after(w, stream), byte)),
        },
{
    let last = seq![byte];
    assert(stream.push(byte) =~= stream + last);
    lemma_scan_append(w, stream, last);
    assert(last.drop_first() =~= Seq::<u8>::empty());
    reveal_with_fuel(scan, 2);
    assert(window_after(w, stream.push(byte)) =~= shift_in(window_after(w, stream), byte));
}

/// `other` does not occur in `w` when every place where it could start
/// puts a byte other than `w[at]` at `at`.
proof fn lemma_no_token_via(w: Seq<u8>, other: Seq<u8>, at: int)
    requires
        0 <= at < w.len(),
        w.len() - other.len() <= at < other.len(),
        forall|k: int| 0 <= k <= at ==> #[trigger] other[k] != w[at],
    ensures
        !has_token(w, other),
{
    assert forall|i: int| !token_at(w, other, i) by {
        if token_at(w, other, i) {
            assert(w.subrange(i, i + other.len())[at - i] == w[at]);
        }
    }
}

/// A text window that ends with an answer's word shows that answer.
proof fn lemma_window_ending_in(next: Seq<u8>, answer: UploadResult)
    requires
        next.len() == WINDOW_LEN,
        all_ascii(next),
        next.subrange(
            WINDOW_LEN - answer_token(answer).len(),
            WINDOW_LEN as int,
        ) == answer_token(answer),
    ensures
        classify(next) == Some(answer),
{
    let t = answer_token(answer);
    lemma_ascii_is_utf8(next);
    let start = WINDOW_LEN - t.len();
    assert(token_at(next, t, start));
    assert(next[3] == next.subrange(start, WINDOW_LEN as int)[3 - start]);
    if answer != UploadResult::AllGood {
        lemma_no_token_via(next, all_good_token(), 3);
    }
    if answer == UploadResult::OutOfMetadata {
        lemma_no_token_via(next, out_of_flash_token(), 3);
    }
}

/// Every answer word is ASCII text.
proof fn lemma_answer_ascii(answer: UploadResult)
    ensures
        all_ascii(answer_token(answer)),
{
}

/// The answer whose word ends the reply is recognised, whatever text came
/// before the word and however the reply was split into reads, as long as
/// no answer showed before the word's last byte.
pub proof fn lemma_answer_recognised(w: Seq<u8>, noise: Seq<u8>, answer: UploadResult)
    requires
        w.len() == WINDOW_LEN,
        all_ascii(w),
        all_ascii(noise),
        scan(w, noise + answer_token(answer).drop_last()) is None,
    ensures
        scan(w, noise + answer_token(answer)) == Some(answer),
{
    let t = answer_token(answer);
    let pre = noise + t.drop_last();
    let last = seq![t.last()];
    assert(noise + t =~= pre + last);
    lemma_scan_append(w, pre, last);
    let next = shift_in(window_after(w, pre), t.last());
    let whole = w + noise + t;
    assert(next =~= whole.subrange(whole.len() - WINDOW_LEN, whole.len() as int));
    assert(last.drop_first() =~= Seq::<u8>::empty());
    reveal_with_fuel(scan, 2);
    assert(scan(window_after(w, pre), last) == classify(next));
    lemma_answer_ascii(answer);
    assert(all_ascii(whole));
    assert(all_ascii(next));
    assert(next.subrange(WINDOW_LEN - t.len(), WINDOW_LEN as int) =~= t);
    lemma_window_ending_in(next, answer);
}

/// A reply in which no answer word occurs, counting the bytes the window
/// held before it, is scanned to its end without an answer.
pub proof fn lemma_no_answer(w: Seq<u8>, stream: Seq<u8>)
    requires
        w.len() == WINDOW_LEN,
        !has_token(w + stream, all_good_token()),
        !has_token(w + stream, out_of_flash_token()),
        !has_token(w + stream, out_of_metadata_token()),
    ensures
        scan(w, stream) is None,
    decreases stream.len(),
{
    if stream.len() > 0 {
        let next = shift_in(w, stream[0]);
        let whole = w + stream;
        assert(next + stream.drop_first() =~= whole.subrange(1, whole.len() as int));
        assert(next =~= whole.subrange(1, 1 + WINDOW_LEN));
        assert forall|t: Seq<u8>, i: int|
            token_at(next + stream.drop_first(), t, i) implies token_at(whole, t, i + 1) by {
            assert(whole.subrange(i + 1, i + 1 + t.len()) =~= (next + stream.drop_first()).subrange(
                i,
                i + t.len(),
            ));
        }
        assert forall|t: Seq<u8>, i: int| token_at(next, t, i) implies token_at(whole, t, i + 1) by {
            assert(whole.subrange(i + 1, i + 1 + t.len()) =~= next.subrange(i, i + t.len()));
        }
        lemma_no_answer(next, stream.drop_first());
    }
}

/// The answer found in `reply` read byte by byte into a window of zero
/// bytes: the first answer that a window shows, or none.
pub fn scan_reply(reply: &[u8]) -> (r: Option<UploadResult>)
    ensures
        r == scan(Seq::new(WINDOW_LEN as nat, |i: int| 0u8), reply@),
{
    let mut scanner = ReplyScanner::new();
    let ghost initial = scanner@;
    assert(window_after(initial, reply@.subrange(0, 0)) =~= initial);
    let mut i: usize = 0;
    while i < reply.len()
        invariant
            i <= reply@.len(),
            initial == Seq::new(WINDOW_LEN as nat, |k: int| 0u8),
            scanner@ == window_after(initial, reply@.subrange(0, i as int)),
            scan(initial, reply@.subrange(0, i as int)) is None,
        decreases reply@.len() - i,
    {
        proof {
            lemma_scan_push(initial, reply@.subrange(0, i as int), reply@[i as int]);
            assert(reply@.subrange(0, i as int).push(reply@[i as int]) =~= reply@.subrange(
                0,
                i + 1,
            ));
        }
        match scanner.push(reply[i]) {
            Some(answer) => {
                proof {
                    lemma_scan_prefix(initial, reply@, i + 1);
                }
                return Some(answer);
            },
            None => {},
        }
        i = i + 1;
    }
    assert(reply@.subrange(0, i as int) =~= reply@);
    None
}

/// Once a prefix of a reply shows an answer, the rest of it is not looked at.
pub proof fn lemma_scan_prefix(w: Seq<u8>, stream: Seq<u8>, n: int)
    requires
        w.len() == WINDOW_LEN,
        0 <= n <= stream.len(),
        scan(w, stream.subrange(0, n)) is Some,
    ensures
        scan(w, stream) == scan(w, stream.subrange(0, n)),
{
    assert(stream =~= stream.subrange(0, n) + stream.subrange(n, stream.len() as int));
    lemma_scan_append(w, stream.subrange(0, n), stream.subrange(n, stream.len() as int));
}

/// The last reply bytes, which are searched for the device's answer.
pub struct ReplyScanner {
    window: [u8; WINDOW_LEN],
}

impl View for ReplyScanner {
    type V = Seq<u8>;

    closed spec fn view(&self) -> Seq<u8> {
        self.window@
    }
}

impl ReplyScanner {
    /// A window of zero bytes, before any reply has come.
    pub fn new() -> (s: Self)
        ensures
            s@ == Seq::new(WINDOW_LEN as nat, |i: int| 0u8),
    {
        let s = ReplyScanner { window: [0, 0, 0, 0, 0, 0, 0, 0, 0, 0, 0] };
        assert(s@ =~= Seq::new(WINDOW_LEN as nat, |i: int| 0u8));
        s
    }

    /// Takes in the next reply byte and tells the answer that the window
    /// now shows, if any.
    pub fn push(&mut self, byte: u8) -> (r: Option<UploadResult>)
        ensures
            final(self)@ == shift_in(old(self)@, byte),
            r == classify(final(self)@),
    {
        let w = self.window;
        self.window = [w[1], w[2], w[3], w[4], w[5], w[6], w[7], w[8], w[9], w[10], byte];
        assert(self.window@ =~= shift_in(w@, byte));
        classify_window(self.window.as_slice())
    }

    /// Takes the outcome of one read into a one-byte buffer that then holds
    /// `byte`, and tells whether the upload is over and how: a failed read
    /// ends it with `IOError`, a read of zero bytes with `NoResponse`, and
    /// otherwise the byte comes into the window, which ends it only when the
    /// window shows an answer.
    pub fn on_read(&mut self, read: Result<usize, std::io::Error>, byte: u8) -> (r: Option<
        Result<UploadResult, UploadError>,
    >)
        ensures
            read is Err ==> r == Some(Err::<UploadResult, UploadError>(UploadError::IOError))
                && final(self)@ == old(self)@,
            read == Ok::<usize, std::io::Error>(0) ==> r == Some(
                Err::<UploadResult, UploadError>(UploadError::NoResponse),
            ) && final(self)@ == old(self)@,
            (read matches Ok(n) && n > 0) ==> final(self)@ == shift_in(old(self)@, byte) && r
                == match classify(final(self)@) {
                Some(answer) => Some(Ok::<UploadResult, UploadError>(answer)),
                None => None,
            },
    {
        match read {
            Err(_) => Some(Err(UploadError::IOError)),
            Ok(0) => Some(Err(UploadError::NoResponse)),
            Ok(_) => match self.push(byte) {
                Some(answer) => Some(Ok(answer)),
                None => None,
            },
        }
    }
}

} // verus!
