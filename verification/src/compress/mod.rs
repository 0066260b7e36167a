//! SSH packet payload compression (RFC 4253 section 6.2).
//!
//! Compression is negotiated for each direction.
//!
//! - [`Compress`] and [`Decompress`] are one-way channels.
//! - [`NoneCompress`] and [`NoneDecompress`] pass packets through.
//! - [`ZlibCompress`] and [`ZlibDecompress`] run one zlib stream for the whole
//!   connection.
//! - [`ZlibOpenSshCompress`] and [`ZlibOpenSshDecompress`] pass packets through
//!   until they are activated, after authentication.
//! - [`compress_by_name`] and [`decompress_by_name`] make a channel for a
//!   negotiated name.

pub mod codec;
pub mod laws;
pub mod zlib;

pub use zlib::{ZlibCompress, ZlibDecompress, ZlibOpenSshCompress, ZlibOpenSshDecompress};

use crate::error::Error;
use crate::text::str_eq;
use vstd::prelude::*;
use zlib::{inflated, DeflateView, InflateView, DEFAULT_MAX_INFLATE_OUTPUT};

verus! {

/// What a [`Compress`] is: its name, and its stream where it has one. Without,
/// it passes packets through.
#[verifier::ext_equal]
pub ghost struct CompressView {
    pub name: Seq<char>,
    pub stream: Option<DeflateView>,
}

impl CompressView {
    /// `none`.
    pub open spec fn none() -> CompressView {
        CompressView { name: "none"@, stream: None }
    }

    /// `zlib`, at its start.
    pub open spec fn zlib() -> CompressView {
        CompressView { name: "zlib"@, stream: Some(DeflateView::start()) }
    }

    /// `zlib@openssh.com`, not yet activated.
    pub open spec fn delayed() -> CompressView {
        CompressView { name: "zlib@openssh.com"@, stream: None }
    }

    /// Whether the channel does what its name says.
    pub open spec fn active(self) -> bool {
        self.name == "none"@ || self.stream is Some
    }

    /// The channel after activation.
    pub open spec fn activated(self) -> CompressView {
        if self.name == "zlib@openssh.com"@ && self.stream is None {
            CompressView { stream: Some(DeflateView::start()), ..self }
        } else {
            self
        }
    }

    /// Whether its stream can take more.
    pub open spec fn valid(self) -> bool {
        self.stream matches Some(s) ==> s.open
    }
}

/// What compressing a packet gives. Without a stream it is the packet. With one
/// it is bytes from which the packet can be decoded.
pub open spec fn compressed(
    before: CompressView,
    input: Seq<u8>,
    r: Result<Vec<u8>, Error>,
    after: CompressView,
) -> bool {
    &&& after.name == before.name
    &&& match before.stream {
        None => (r matches Ok(wire) && wire@ == input) && after == before,
        Some(s) => {
            &&& r matches Ok(wire) && after.stream == Some(s.after(input, wire@))
            &&& after.stream matches Some(t) && t.flushed()
        },
    }
}

/// What a [`Decompress`] is: its name, its stream where it has one, and how
/// much one packet may decompress to.
#[verifier::ext_equal]
pub ghost struct DecompressView {
    pub name: Seq<char>,
    pub stream: Option<InflateView>,
    pub cap: usize,
}

impl DecompressView {
    /// `none`.
    pub open spec fn none() -> DecompressView {
        DecompressView { name: "none"@, stream: None, cap: usize::MAX }
    }

    /// `zlib`, at its start.
    pub open spec fn zlib() -> DecompressView {
        DecompressView {
            name: "zlib"@,
            stream: Some(InflateView::start(DEFAULT_MAX_INFLATE_OUTPUT)),
            cap: DEFAULT_MAX_INFLATE_OUTPUT,
        }
    }

    /// `zlib@openssh.com`, not yet activated.
    pub open spec fn delayed() -> DecompressView {
        DecompressView {
            name: "zlib@openssh.com"@,
            stream: None,
            cap: DEFAULT_MAX_INFLATE_OUTPUT,
        }
    }

    /// Whether the channel does what its name says.
    pub open spec fn active(self) -> bool {
        self.name == "none"@ || self.stream is Some
    }

    /// The channel after activation. A limit that was set before stays.
    pub open spec fn activated(self) -> DecompressView {
        if self.name == "zlib@openssh.com"@ && self.stream is None {
            DecompressView { stream: Some(InflateView::start(self.cap)), ..self }
        } else {
            self
        }
    }

    /// The channel with another limit.
    pub open spec fn with_cap(self, cap: usize) -> DecompressView {
        DecompressView {
            name: self.name,
            stream: match self.stream {
                Some(s) => Some(InflateView { cap, ..s }),
                None => None,
            },
            cap,
        }
    }
}

/// What decompressing a packet gives. Without a stream it is the packet.
pub open spec fn decompressed(
    before: DecompressView,
    input: Seq<u8>,
    r: Result<Vec<u8>, Error>,
    after: DecompressView,
) -> bool {
    &&& after.name == before.name
    &&& after.cap == before.cap
    &&& match before.stream {
        None => (r matches Ok(out) && out@ == input) && after == before,
        Some(s) => after.stream matches Some(t) && inflated(s, input, r, t),
    }
}

/// A compression channel for one direction.
pub trait Compress: Send {
    /// What the channel is.
    spec fn state(&self) -> CompressView;

    /// The SSH name of the algorithm.
    fn name(&self) -> (r: &'static str)
        ensures
            r@ == self.state().name,
    ;

    /// Compress one packet.
    fn compress(&mut self, input: &[u8]) -> (r: Result<Vec<u8>, Error>)
        requires
            old(self).state().valid(),
        ensures
            final(self).state().valid(),
            compressed(old(self).state(), input@, r, final(self).state()),
    ;

    /// Whether compression is on: always but for `zlib@openssh.com` before
    /// activation.
    fn active(&self) -> (r: bool)
        ensures
            r == self.state().active(),
    ;

    /// Switch compression on, once authentication has succeeded. It makes a
    /// difference to `zlib@openssh.com` alone.
    fn activate(&mut self)
        ensures
            final(self).state() == old(self).state().activated(),
    ;
}

/// A decompression channel for one direction.
pub trait Decompress: Send {
    /// What the channel is.
    spec fn state(&self) -> DecompressView;

    /// The SSH name of the algorithm.
    fn name(&self) -> (r: &'static str)
        ensures
            r@ == self.state().name,
    ;

    /// Decompress one packet.
    fn decompress(&mut self, input: &[u8]) -> (r: Result<Vec<u8>, Error>)
        ensures
            decompressed(old(self).state(), input@, r, final(self).state()),
    ;

    /// Whether decompression is on.
    fn active(&self) -> (r: bool)
        ensures
            r == self.state().active(),
    ;

    /// Switch decompression on.
    fn activate(&mut self)
        ensures
            final(self).state() == old(self).state().activated(),
    ;
}

/// `none`: passes packets through.
pub struct NoneCompress;

impl Compress for NoneCompress {
    open spec fn state(&self) -> CompressView {
        CompressView::none()
    }

    fn name(&self) -> (r: &'static str) {
        "none"
    }

    fn compress(&mut self, input: &[u8]) -> (r: Result<Vec<u8>, Error>) {
        Ok(vstd::slice::slice_to_vec(input))
    }

    fn active(&self) -> (r: bool) {
        true
    }

    fn activate(&mut self) {
        proof {
            lemma_names_differ();
        }
    }
}

/// `none`: passes packets through.
pub struct NoneDecompress;

impl Decompress for NoneDecompress {
    open spec fn state(&self) -> DecompressView {
        DecompressView::none()
    }

    fn name(&self) -> (r: &'static str) {
        "none"
    }

    fn decompress(&mut self, input: &[u8]) -> (r: Result<Vec<u8>, Error>) {
        Ok(vstd::slice::slice_to_vec(input))
    }

    fn active(&self) -> (r: bool) {
        true
    }

    fn activate(&mut self) {
        proof {
            lemma_names_differ();
        }
    }
}

/// The channels have different names.
pub proof fn lemma_names_differ()
    ensures
        "none"@ != "zlib@openssh.com"@,
        "zlib"@ != "zlib@openssh.com"@,
        "none"@ != "zlib"@,
{
    reveal_strlit("none");
    reveal_strlit("zlib");
    reveal_strlit("zlib@openssh.com");
    assert("none"@.len() == 4 && "zlib"@.len() == 4);
    assert("none"@[0] == 'n' && "zlib"@[0] == 'z');
    assert("zlib@openssh.com"@.len() == 16);
}

/// The channel that a name stands for.
pub open spec fn compress_for(name: Seq<char>) -> Option<CompressView> {
    if name == "none"@ {
        Some(CompressView::none())
    } else if name == "zlib"@ {
        Some(CompressView::zlib())
    } else if name == "zlib@openssh.com"@ {
        Some(CompressView::delayed())
    } else {
        None
    }
}

/// The channel that a name stands for.
pub open spec fn decompress_for(name: Seq<char>) -> Option<DecompressView> {
    if name == "none"@ {
        Some(DecompressView::none())
    } else if name == "zlib"@ {
        Some(DecompressView::zlib())
    } else if name == "zlib@openssh.com"@ {
        Some(DecompressView::delayed())
    } else {
        None
    }
}

/// A compression channel for a negotiated name.
pub fn compress_by_name(name: &str) -> (r: Option<Box<dyn Compress>>)
    ensures
        match compress_for(name@) {
            Some(c) => r matches Some(x) && x.state() == c,
            None => r is None,
        },
{
    if str_eq(name, "none") {
        Some(Box::new(NoneCompress))
    } else if str_eq(name, "zlib") {
        Some(Box::new(ZlibCompress::new()))
    } else if str_eq(name, "zlib@openssh.com") {
        Some(Box::new(ZlibOpenSshCompress::new()))
    } else {
        None
    }
}

/// A decompression channel for a negotiated name.
pub fn decompress_by_name(name: &str) -> (r: Option<Box<dyn Decompress>>)
    ensures
        match decompress_for(name@) {
            Some(c) => r matches Some(x) && x.state() == c,
            None => r is None,
        },
{
    if str_eq(name, "none") {
        Some(Box::new(NoneDecompress))
    } else if str_eq(name, "zlib") {
        Some(Box::new(ZlibDecompress::new()))
    } else if str_eq(name, "zlib@openssh.com") {
        Some(Box::new(ZlibOpenSshDecompress::new()))
    } else {
        None
    }
}

} // verus!
