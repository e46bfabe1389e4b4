//! Addressing one chip of a chain: the bytes of a bus frame, and the link
//! that hands frames to the transport.

use vstd::prelude::*;
use crate::chain::MAX_MODULES;
use crate::command::{no_op_word, Command};
use crate::error::{ConfigError, Error};

verus! {

/// The bytes of the frame that brings `word` to module `target` of a chain
/// of `chain_len` modules: two bytes per module, module 0 first, the word at
/// the target's place and the no-op word at every other.
pub open spec fn frame_bytes(chain_len: nat, target: nat, word: Seq<u8>) -> Seq<u8> {
    Seq::new(
        2 * chain_len,
        |i: int|
            if i / 2 == target {
                word[i % 2]
            } else {
                no_op_word()[i % 2]
            },
    )
}

/// The two bytes that a frame holds for module `k`.
pub open spec fn frame_slot(frame: Seq<u8>, k: int) -> Seq<u8> {
    frame.subrange(2 * k, 2 * k + 2)
}

/// A frame is two bytes per module; the target's two bytes are the command
/// word, and every other module's two bytes are the no-op word.
pub proof fn lemma_frame_layout(chain_len: nat, target: nat, word: Seq<u8>)
    requires
        1 <= chain_len,
        target < chain_len,
        word.len() == 2,
    ensures
        frame_bytes(chain_len, target, word).len() == 2 * chain_len,
        frame_slot(frame_bytes(chain_len, target, word), target as int) == word,
        forall|k: int|
            0 <= k < chain_len && k != target ==> #[trigger] frame_slot(
                frame_bytes(chain_len, target, word),
                k,
            ) == no_op_word(),
{
    let frame = frame_bytes(chain_len, target, word);
    assert(frame_slot(frame, target as int) =~= word);
    assert forall|k: int| 0 <= k < chain_len && k != target implies #[trigger] frame_slot(
        frame,
        k,
    ) == no_op_word() by {
        assert(frame_slot(frame, k) =~= no_op_word());
    }
}

/// Builds the frame that brings `command` to module `target`.  A chain
/// length outside `1..=MAX_MODULES` and a target outside the chain are
/// refused, in this order.
pub fn build_frame(chain_len: usize, target: usize, command: Command) -> (r: Result<
    Vec<u8>,
    ConfigError,
>)
    ensures
        r is Ok <==> 1 <= chain_len <= MAX_MODULES && target < chain_len,
        r matches Ok(frame) ==> frame@ == frame_bytes(
            chain_len as nat,
            target as nat,
            command.word(),
        ),
        !(1 <= chain_len <= MAX_MODULES) ==> r == Err::<Vec<u8>, ConfigError>(
            ConfigError::InvalidChainLength,
        ),
        1 <= chain_len <= MAX_MODULES && target >= chain_len ==> r == Err::<Vec<u8>, ConfigError>(
            ConfigError::InvalidModule,
        ),
{
    if chain_len == 0 || chain_len > MAX_MODULES {
        return Err(ConfigError::InvalidChainLength);
    }
    if target >= chain_len {
        return Err(ConfigError::InvalidModule);
    }
    let word: [u8; 2] = command.encode();
    let idle: [u8; 2] = Command::no_op().encode();
    let mut frame: Vec<u8> = Vec::new();
    let mut k: usize = 0;
    while k < chain_len
        invariant
            k <= chain_len <= MAX_MODULES,
            target < chain_len,
            word@ == command.word(),
            idle@ == no_op_word(),
            frame@.len() == 2 * k,
            forall|i: int|
                0 <= i < 2 * k ==> frame@[i] == frame_bytes(
                    chain_len as nat,
                    target as nat,
                    command.word(),
                )[i],
        decreases chain_len - k,
    {
        if k == target {
            frame.push(word[0]);
            frame.push(word[1]);
        } else {
            frame.push(idle[0]);
            frame.push(idle[1]);
        }
        k += 1;
    }
    assert(frame@ =~= frame_bytes(chain_len as nat, target as nat, command.word()));
    Ok(frame)
}

/// The bus as the driver sees it: one call is one framed transaction.  The
/// transport asserts the select line, shifts out all the bytes, and releases
/// the select line; it reports a fault rather than dropping bytes.
///
/// The trait is implemented where the bus is, outside this crate, and so
/// carries no contract: nothing is proved about what a transport does with
/// the bytes it is given.
pub trait Transport {
    /// What the transport reports when a transaction fails.
    type Error;

    fn write_frame(&mut self, bytes: &[u8]) -> Result<(), Self::Error>;
}

/// What the caller of a bus operation gets for what the transport returned:
/// success as success, a fault as [`Error::Transfer`] with the transport's
/// error unchanged.
pub fn transfer_outcome<E>(written: Result<(), E>) -> (r: Result<(), Error<E>>)
    ensures
        written is Ok ==> r is Ok,
        written matches Err(e) ==> r == Err::<(), Error<E>>(Error::Transfer(e)),
{
    match written {
        Ok(()) => Ok(()),
        Err(e) => Err(Error::Transfer(e)),
    }
}

/// A transport together with the length of the chain behind it.
///
/// The link keeps a ghost record of the frames it has built for the
/// transport; see [`Link::issued`].
pub struct Link<T: Transport> {
    bus: T,
    modules: usize,
    issued: Ghost<Seq<Seq<u8>>>,
}

impl<T: Transport> Link<T> {
    /// The invariant of every link: the chain length is supported.
    pub closed spec fn wf(&self) -> bool {
        1 <= self.modules <= MAX_MODULES
    }

    /// The chain length.
    pub closed spec fn chain_len(&self) -> nat {
        self.modules as nat
    }

    /// The frames that the link has built for the transport so far, oldest
    /// first: one for every call of [`Link::send`] with a target inside the
    /// chain, whether or not the transport then reported a fault.
    ///
    /// This is the link's own record of what it built, written by `send`
    /// beside its call of `write_frame`.  It is not a record kept by the
    /// transport: no clause says that the transport was given these bytes,
    /// nor what it did with them.
    pub closed spec fn issued(&self) -> Seq<Seq<u8>> {
        self.issued@
    }

    /// The transport.
    pub closed spec fn transport(&self) -> T {
        self.bus
    }

    /// A link over `bus` to a chain of `modules` chips; refused unless
    /// `1 <= modules <= MAX_MODULES`.  Nothing is put on the bus.
    pub fn new(bus: T, modules: usize) -> (r: Result<Link<T>, ConfigError>)
        ensures
            r is Ok <==> 1 <= modules <= MAX_MODULES,
            r matches Ok(link) ==> link.wf() && link.chain_len() == modules && link.issued()
                == Seq::<Seq<u8>>::empty() && link.transport() == bus,
            r matches Err(e) ==> e == ConfigError::InvalidChainLength,
    {
        if modules == 0 || modules > MAX_MODULES {
            return Err(ConfigError::InvalidChainLength);
        }
        Ok(Link { bus, modules, issued: Ghost(Seq::empty()) })
    }

    /// The chain length.
    pub fn len(&self) -> (n: usize)
        requires
            self.wf(),
        ensures
            n == self.chain_len(),
            1 <= n <= MAX_MODULES,
    {
        self.modules
    }

    /// Gives the transport back.
    pub fn release(self) -> (bus: T)
        ensures
            bus == self.transport(),
    {
        self.bus
    }

    /// Brings `command` to module `target` in one framed transaction; the
    /// other modules latch no-ops.  A target outside the chain is refused
    /// before anything is put on the bus.  A fault of the transport is
    /// passed on; the frame is not sent again.
    ///
    /// The contract fixes the frame that is built and recorded, and the
    /// kind of the outcome; the outcome itself is the transport's, turned
    /// into the result by [`transfer_outcome`].
    pub fn send(&mut self, target: usize, command: Command) -> (r: Result<(), Error<T::Error>>)
        requires
            old(self).wf(),
        ensures
            final(self).wf(),
            final(self).chain_len() == old(self).chain_len(),
            target >= old(self).chain_len() ==> r == Err::<(), Error<T::Error>>(
                Error::Config(ConfigError::InvalidModule),
            ) && final(self).issued() == old(self).issued(),
            target < old(self).chain_len() ==> final(self).issued() == old(self).issued().push(
                frame_bytes(old(self).chain_len(), target as nat, command.word()),
            ) && (r is Ok || r matches Err(Error::Transfer(_))),
    {
        match build_frame(self.modules, target, command) {
            Err(e) => Err(Error::Config(e)),
            Ok(frame) => {
                let written = self.bus.write_frame(frame.as_slice());
                proof {
                    self.issued@ = self.issued@.push(frame@);
                }
                transfer_outcome(written)
            },
        }
    }
}

} // verus!
