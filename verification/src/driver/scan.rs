//! Finding the peer's identification line (RFC 4253 section 4.2).
//!
//! A server may send other lines before it. Their length, their number and
//! their total size are bounded.

use crate::error::Error;
use vstd::prelude::*;

verus! {

/// Longest stretch without an end of line.
pub const MAX_BANNER_LINE: usize = 1_024;

/// Most lines before the identification.
pub const MAX_BANNER_LINES: usize = 32;

/// Most bytes up to and including the identification.
pub const MAX_BANNER_TOTAL_BYTES: usize = 65_536;

/// How many lines and bytes have been skipped.
#[verifier::ext_equal]
pub ghost struct BannerView {
    pub lines: nat,
    pub total: nat,
}

/// What a scan comes to.
#[derive(Debug)]
pub enum Scan {
    /// No complete line is left.
    More,
    /// The identification line, with its end of line.
    Found(Vec<u8>),
}

/// What a scan comes to.
#[verifier::ext_equal]
pub ghost enum ScanView {
    More,
    Found(Seq<u8>),
}

impl View for Scan {
    type V = ScanView;

    open spec fn view(&self) -> ScanView {
        match self {
            Scan::More => ScanView::More,
            Scan::Found(line) => ScanView::Found(line@),
        }
    }
}

/// The place of the first end of line.
pub open spec fn line_end(s: Seq<u8>) -> Option<nat>
    decreases s.len(),
{
    if s.len() == 0 {
        None
    } else if s[0] == 10 {
        Some(0)
    } else {
        match line_end(s.skip(1)) {
            Some(i) => Some(i + 1),
            None => None,
        }
    }
}

/// Whether a line is an identification: it starts with `SSH-`.
pub open spec fn is_identification(line: Seq<u8>) -> bool {
    line.len() >= 4 && line[0] == 83 && line[1] == 83 && line[2] == 72 && line[3] == 45
}

/// What a scan leaves behind: the bytes after the lines that it has taken,
/// the counts, and what it came to.
#[verifier::ext_equal]
pub ghost struct Scanned {
    pub rest: Seq<u8>,
    pub banner: BannerView,
    pub result: Result<ScanView, Error>,
}

impl BannerView {
    /// Take lines off `s` until one is the identification.
    pub open spec fn scan(self, s: Seq<u8>) -> Scanned
        decreases s.len(),
    {
        match line_end(s) {
            None => Scanned {
                rest: s,
                banner: self,
                result: if s.len() > MAX_BANNER_LINE {
                    Err(Error::Protocol("banner line too long"))
                } else {
                    Ok(ScanView::More)
                },
            },
            Some(i) => {
                proof {
                    lemma_line_end_in_range(s);
                }
                let line = s.take(i as int + 1);
                let rest = s.skip(i as int + 1);
                let total = if self.total + line.len() > usize::MAX {
                    usize::MAX as nat
                } else {
                    self.total + line.len()
                };
                let read = BannerView { total, ..self };
                if total > MAX_BANNER_TOTAL_BYTES {
                    Scanned {
                        rest,
                        banner: read,
                        result: Err(Error::Protocol("banner too large")),
                    }
                } else if is_identification(line) {
                    Scanned { rest, banner: read, result: Ok(ScanView::Found(line)) }
                } else {
                    let skipped = BannerView { lines: self.lines + 1, ..read };
                    if skipped.lines > MAX_BANNER_LINES {
                        Scanned {
                            rest,
                            banner: skipped,
                            result: Err(Error::Protocol("peer banner too long")),
                        }
                    } else {
                        skipped.scan(rest)
                    }
                }
            },
        }
    }
}

/// How many lines and bytes have been skipped.
#[derive(Debug)]
pub struct Banner {
    lines: usize,
    total: usize,
}

impl View for Banner {
    type V = BannerView;

    closed spec fn view(&self) -> BannerView {
        BannerView { lines: self.lines as nat, total: self.total as nat }
    }
}

/// The first end of line is where a search from the front finds it.
proof fn lemma_line_end(s: Seq<u8>, i: int)
    requires
        0 <= i <= s.len(),
        forall|k: int| 0 <= k < i ==> s[k] != 10,
    ensures
        i < s.len() && s[i] == 10 ==> line_end(s) == Some(i as nat),
        i == s.len() ==> line_end(s) is None,
    decreases s.len(),
{
    if s.len() > 0 && i > 0 {
        lemma_line_end(s.skip(1), i - 1);
    }
}

/// The place of the first end of line.
fn find_line_end(s: &[u8]) -> (r: Option<usize>)
    ensures
        match r {
            Some(i) => i < s@.len() && line_end(s@) == Some(i as nat),
            None => line_end(s@) is None,
        },
{
    let mut i: usize = 0;
    let n: usize = s.len();
    while i < n
        invariant
            i <= n,
            n == s@.len(),
            forall|k: int| 0 <= k < i ==> s@[k] != 10,
        decreases n - i,
    {
        if s[i] == 10 {
            proof {
                lemma_line_end(s@, i as int);
            }
            return Some(i);
        }
        i += 1;
    }
    proof {
        lemma_line_end(s@, n as int);
    }
    None
}

impl Banner {
    /// Nothing skipped.
    pub fn new() -> (r: Banner)
        ensures
            r@ == (BannerView { lines: 0, total: 0 }),
    {
        Banner { lines: 0, total: 0 }
    }

    /// Take lines off the inbox until one is the identification.
    pub fn scan(&mut self, inbox: &mut Vec<u8>) -> (r: Result<Scan, Error>)
        requires
            old(self)@.lines <= MAX_BANNER_LINES,
        ensures
            ({
                let model = old(self)@.scan(old(inbox)@);
                &&& final(inbox)@ == model.rest
                &&& final(self)@ == model.banner
                &&& match model.result {
                    Ok(found) => r matches Ok(f) && f@ == found,
                    Err(e) => r == Err::<Scan, Error>(e),
                }
                &&& r is Ok ==> final(self)@.lines <= MAX_BANNER_LINES
            }),
    {
        let ghost model = self@.scan(inbox@);
        loop
            invariant
                self@.lines <= MAX_BANNER_LINES,
                self@.scan(inbox@) == model,
                model == old(self)@.scan(old(inbox)@),
            decreases inbox@.len(),
        {
            let i: usize = match find_line_end(inbox.as_slice()) {
                None => {
                    if inbox.len() > MAX_BANNER_LINE {
                        return Err(Error::Protocol("banner line too long"));
                    }
                    return Ok(Scan::More);
                },
                Some(i) => i,
            };
            let n: usize = inbox.len();
            let ghost s = inbox@;
            let line = vstd::slice::slice_to_vec(
                vstd::slice::slice_subrange(inbox.as_slice(), 0, i + 1),
            );
            let rest = vstd::slice::slice_to_vec(
                vstd::slice::slice_subrange(inbox.as_slice(), i + 1, n),
            );
            assert(line@ =~= s.take(i + 1));
            assert(rest@ =~= s.skip(i + 1));
            *inbox = rest;
            self.total = self.total.saturating_add(line.len());
            if self.total > MAX_BANNER_TOTAL_BYTES {
                return Err(Error::Protocol("banner too large"));
            }
            if line.len() >= 4 && line[0] == 83 && line[1] == 83 && line[2] == 72 && line[3]
                == 45 {
                return Ok(Scan::Found(line));
            }
            self.lines = self.lines + 1;
            if self.lines > MAX_BANNER_LINES {
                return Err(Error::Protocol("peer banner too long"));
            }
        }
    }
}

/// Once the identification is found, nothing before it was one, and what
/// follows it is left for the packet codec: the line ends the part that was
/// taken.
pub proof fn lemma_found_line_is_the_identification(banner: BannerView, s: Seq<u8>)
    requires
        banner.scan(s).result matches Ok(ScanView::Found(_)),
    ensures
        ({
            let out = banner.scan(s);
            let line = (out.result->Ok_0)->Found_0;
            &&& is_identification(line)
            &&& line.last() == 10
            &&& line.len() + out.rest.len() <= s.len()
            &&& s.skip(s.len() - out.rest.len()) == out.rest
            &&& s.subrange(s.len() - out.rest.len() - line.len(), s.len() - out.rest.len()) == line
        }),
    decreases s.len(),
{
    match line_end(s) {
        None => {},
        Some(i) => {
            lemma_line_end_in_range(s);
            let line = s.take(i as int + 1);
            let rest = s.skip(i as int + 1);
            let total = if banner.total + line.len() > usize::MAX {
                usize::MAX as nat
            } else {
                banner.total + line.len()
            };
            let read = BannerView { total, ..banner };
            let out = banner.scan(s);
            if is_identification(line) {
                assert(s.skip(s.len() - rest.len()) =~= rest);
                assert(s.subrange(s.len() - rest.len() - line.len(), s.len() - rest.len())
                    =~= line);
            } else {
                let skipped = BannerView { lines: banner.lines + 1, ..read };
                lemma_found_line_is_the_identification(skipped, rest);
                let found = (out.result->Ok_0)->Found_0;
                let k = rest.len() - out.rest.len();
                assert(s.skip(s.len() - out.rest.len()) =~= rest.skip(k));
                assert(s.subrange(
                    s.len() - out.rest.len() - found.len(),
                    s.len() - out.rest.len(),
                ) =~= rest.subrange(k - found.len(), k));
            }
        },
    }
}

/// An end of line is in the text, and is one.
pub proof fn lemma_line_end_in_range(s: Seq<u8>)
    ensures
        line_end(s) matches Some(i) ==> i < s.len() && s[i as int] == 10,
    decreases s.len(),
{
    if s.len() > 0 {
        lemma_line_end_in_range(s.skip(1));
    }
}

} // verus!
