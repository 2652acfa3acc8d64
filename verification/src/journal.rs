//! Reading an append-only journal: one JSON record per line, the last
//! complete record wins. A record that cannot be decoded after a complete
//! one is a write torn by a crash, and ends the journal; a first record
//! that cannot be decoded makes the journal unreadable.
use vstd::prelude::*;

verus! {

/// One line of a journal file.
#[derive(Debug, Clone)]
pub enum JournalLine<T> {
    /// Empty once trimmed; skipped.
    Blank,
    /// A complete, decoded record.
    Record(T),
    /// A line that does not decode, with the decoder's message.
    Torn(String),
}

/// Why no record could be read.
#[derive(Debug, Clone, PartialEq, Eq)]
pub enum JournalReadError {
    /// The first record does not decode.
    Torn(String),
    /// The journal holds no complete record.
    Empty,
}

/// The record a journal reads as, scanning `lines` with `latest` the last
/// complete record seen before them.
pub open spec fn scan_journal<T>(lines: Seq<JournalLine<T>>, latest: Option<T>) -> Result<
    T,
    JournalReadError,
>
    decreases lines.len(),
{
    if lines.len() == 0 {
        match latest {
            Some(t) => Ok(t),
            None => Err(JournalReadError::Empty),
        }
    } else {
        match lines[0] {
            JournalLine::Blank => scan_journal(lines.drop_first(), latest),
            JournalLine::Record(t) => scan_journal(lines.drop_first(), Some(t)),
            JournalLine::Torn(e) => match latest {
                Some(t) => Ok(t),
                None => Err(JournalReadError::Torn(e)),
            },
        }
    }
}

/// The latest complete record of a journal, read line by line.
pub fn latest_record<T>(lines: Vec<JournalLine<T>>) -> (r: Result<T, JournalReadError>)
    ensures
        r == scan_journal(lines@, None),
{
    let mut rest = lines;
    let mut latest: Option<T> = None;
    let ghost all = rest@;
    while rest.len() > 0
        invariant
            all == lines@,
            scan_journal(all, None) == scan_journal(rest@, latest),
        decreases rest@.len(),
    {
        let ghost before = rest@;
        let line = rest.remove(0);
        assert(rest@ =~= before.drop_first());
        match line {
            JournalLine::Blank => {},
            JournalLine::Record(t) => {
                latest = Some(t);
            },
            JournalLine::Torn(e) => {
                assert(before[0] == JournalLine::<T>::Torn(e));
                let r = match latest {
                    Some(t) => Ok(t),
                    None => Err(JournalReadError::Torn(e)),
                };
                assert(scan_journal(before, latest) == r);
                return r;
            },
        }
    }
    match latest {
        Some(t) => Ok(t),
        None => Err(JournalReadError::Empty),
    }
}

/// A torn write after a complete record never loses that record: the
/// journal reads as the last record written before the tear.
pub proof fn lemma_torn_tail_keeps_last_record<T>(prefix: Seq<JournalLine<T>>, t: T, tail: Seq<JournalLine<T>>, e: String)
    requires
        forall|i: int| 0 <= i < prefix.len() ==> !(#[trigger] prefix[i] is Torn),
    ensures
        scan_journal(prefix + seq![JournalLine::Record(t)] + seq![JournalLine::Torn(e)] + tail, None)
            == Ok::<T, JournalReadError>(t),
    decreases prefix.len(),
{
    lemma_scan_prefix(prefix, None, t, e, tail);
}

proof fn lemma_scan_prefix<T>(prefix: Seq<JournalLine<T>>, latest: Option<T>, t: T, e: String, tail: Seq<JournalLine<T>>)
    requires
        forall|i: int| 0 <= i < prefix.len() ==> !(#[trigger] prefix[i] is Torn),
    ensures
        scan_journal(prefix + seq![JournalLine::Record(t)] + seq![JournalLine::Torn(e)] + tail, latest)
            == Ok::<T, JournalReadError>(t),
    decreases prefix.len(),
{
    let all = prefix + seq![JournalLine::Record(t)] + seq![JournalLine::Torn(e)] + tail;
    if prefix.len() == 0 {
        assert(all[0] == JournalLine::Record(t));
        assert(all.drop_first()[0] == JournalLine::<T>::Torn(e));
        assert(scan_journal(all.drop_first(), Some(t)) == Ok::<T, JournalReadError>(t));
        assert(scan_journal(all, latest) == scan_journal(all.drop_first(), Some(t)));
    } else {
        let p = prefix.drop_first();
        assert forall|i: int| 0 <= i < p.len() implies !(#[trigger] p[i] is Torn) by {
            assert(0 <= i + 1 < prefix.len());
            assert(p[i] == prefix[i + 1]);
        }
        assert(all.drop_first() =~= p + seq![JournalLine::Record(t)] + seq![JournalLine::Torn(e)] + tail);
        assert(all[0] == prefix[0]);
        assert(!(prefix[0] is Torn));
        let next = match prefix[0] {
            JournalLine::Record(x) => Some(x),
            _ => latest,
        };
        lemma_scan_prefix(p, next, t, e, tail);
        assert(scan_journal(all, latest) == scan_journal(all.drop_first(), next));
    }
}

} // verus!
