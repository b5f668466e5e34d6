//! `UsbForensics`: named, documented recipes for issuing USB traffic a compliant
//! host would never send - the deliberately-illegal operations that make this a
//! forensics tool.
//!
//! Every method is a thin, discoverable wrapper over [`UsbHost::control_raw`] /
//! [`UsbHost::raw_transaction`], so intent is explicit at the call site. After
//! calling one, drain [`UsbHost::poll_events`] to see exactly what the device did
//! (including errors a compliant host would hide).

use vstd::prelude::*;
use vstd::slice::slice_to_vec;

use crate::error::Result;
use crate::host::model;
use crate::host::ControlForensics;
use crate::host::ControlResult;
use crate::host::Pid;
use crate::host::RawTransaction;
use crate::host::RawTransactionView;
use crate::host::Setup;
use crate::host::TransactionResult;
use crate::host::TxFlags;
use crate::host::UsbHost;

verus! {

/// A control transfer whose data stage runs for `n` bytes, whatever was declared.
pub open spec fn running_for(n: usize) -> ControlForensics {
    ControlForensics { data_len_override: Some(n), ..ControlForensics::compliant() }
}

/// A control transfer whose status stage runs in the wrong direction.
pub open spec fn with_wrong_status() -> ControlForensics {
    ControlForensics { status_wrong_dir: true, ..ControlForensics::compliant() }
}

/// A control transfer without a status stage.
pub open spec fn without_status() -> ControlForensics {
    ControlForensics { skip_status: true, ..ControlForensics::compliant() }
}

/// One IN token, not tried again.
pub open spec fn probe(address: u8, endpoint: u8) -> RawTransactionView {
    RawTransactionView {
        pid: Pid::In,
        address,
        endpoint,
        data: Seq::empty(),
        flags: TxFlags { no_retry: true, ..TxFlags::compliant() },
    }
}

/// An OUT packet under a given data PID, not tried again.
pub open spec fn out_under(address: u8, endpoint: u8, data: Seq<u8>, pid: Pid) -> RawTransactionView {
    RawTransactionView {
        pid: Pid::Out,
        address,
        endpoint,
        data,
        flags: TxFlags { force_data_pid: Some(pid), no_retry: true, ..TxFlags::compliant() },
    }
}

/// An OUT packet with `extra` bytes too many, not tried again.
pub open spec fn out_too_long(
    address: u8,
    endpoint: u8,
    data: Seq<u8>,
    extra: usize,
) -> RawTransactionView {
    RawTransactionView {
        pid: Pid::Out,
        address,
        endpoint,
        data,
        flags: TxFlags { extra_bytes: extra, no_retry: true, ..TxFlags::compliant() },
    }
}

/// A token whose PID does not match its check, not tried again.
pub open spec fn miscarried(address: u8, endpoint: u8, pid: Pid) -> RawTransactionView {
    RawTransactionView {
        pid,
        address,
        endpoint,
        data: Seq::empty(),
        flags: TxFlags { bad_pid_check: true, no_retry: true, ..TxFlags::compliant() },
    }
}

/// Each control recipe breaks one rule and no other: the length of the data stage, the
/// direction of the status stage, or that there is one.
pub proof fn control_recipes_break_one_rule(n: usize)
    ensures
        running_for(n).data_len_override == Some(n),
        !running_for(n).skip_status && !running_for(n).status_wrong_dir,
        with_wrong_status().data_len_override is None,
        !with_wrong_status().skip_status && with_wrong_status().status_wrong_dir,
        without_status().data_len_override is None,
        without_status().skip_status && !without_status().status_wrong_dir,
        running_for(n).flags == TxFlags::compliant(),
        with_wrong_status().flags == TxFlags::compliant(),
        without_status().flags == TxFlags::compliant(),
{
}

/// Each transaction recipe goes to the address and endpoint it is given, with the data it is
/// given, is not tried again, and breaks one rule at most: none for a probe, else the data
/// PID, the length, or the PID check.
pub proof fn transaction_recipes_break_one_rule(
    address: u8,
    endpoint: u8,
    data: Seq<u8>,
    pid: Pid,
    extra: usize,
)
    ensures
        ({
            let t = probe(address, endpoint);
            &&& t.pid is In && t.address == address && t.endpoint == endpoint && t.data.len() == 0
            &&& t.flags.no_retry
            &&& (TxFlags { no_retry: false, ..t.flags }) == TxFlags::compliant()
        }),
        ({
            let t = out_under(address, endpoint, data, pid);
            &&& t.pid is Out && t.address == address && t.endpoint == endpoint && t.data == data
            &&& t.flags.no_retry && t.flags.force_data_pid == Some(pid)
            &&& (TxFlags { no_retry: false, force_data_pid: None, ..t.flags })
                == TxFlags::compliant()
        }),
        ({
            let t = out_too_long(address, endpoint, data, extra);
            &&& t.pid is Out && t.address == address && t.endpoint == endpoint && t.data == data
            &&& t.flags.no_retry && t.flags.extra_bytes == extra
            &&& (TxFlags { no_retry: false, extra_bytes: 0, ..t.flags }) == TxFlags::compliant()
        }),
        ({
            let t = miscarried(address, endpoint, pid);
            &&& t.pid == pid && t.address == address && t.endpoint == endpoint && t.data.len() == 0
            &&& t.flags.no_retry && t.flags.bad_pid_check
            &&& (TxFlags { no_retry: false, bad_pid_check: false, ..t.flags })
                == TxFlags::compliant()
        }),
{
}

/// Forensic / non-compliant operations, available on any [`UsbHost`] via a
/// blanket implementation.
pub trait UsbForensics: UsbHost {
    /// `GET_DESCRIPTOR` asking for far more bytes than the descriptor contains
    /// (`wLength` = `claim_len`). A compliant host requests the real length.
    fn get_descriptor_oversized(
        &mut self,
        address: u8,
        desc_type: u8,
        index: u8,
        claim_len: u16,
    ) -> (r: Result<ControlResult>)
        ensures
            model::requests::<Self>(
                *old(self),
                address,
                Setup::descriptor_request(desc_type, index, 0, claim_len),
                *final(self),
                r,
            ),
    {
        let nothing: &[u8] = &[];
        assert(nothing@ =~= Seq::<u8>::empty());
        self.control_transfer(
            address,
            Setup::get_descriptor(desc_type, index, 0, claim_len),
            nothing,
        )
    }

    /// Send a SETUP whose `wLength` disagrees with the data actually moved: the 8
    /// SETUP bytes go on the wire verbatim, but the data stage runs for
    /// `actual_len` bytes instead of the declared `wLength`.
    fn setup_length_mismatch(
        &mut self,
        address: u8,
        setup: [u8; 8],
        data_out: &[u8],
        actual_len: usize,
    ) -> (r: Result<ControlResult>)
        ensures
            Self::control_step(
                *old(self),
                address,
                setup@,
                data_out@,
                running_for(actual_len),
                *final(self),
                r,
            ),
    {
        let mut opts = ControlForensics::default();
        opts.data_len_override = Some(actual_len);
        self.control_raw(address, setup, data_out, opts)
    }

    /// Run the status stage in the wrong direction for the given SETUP.
    fn setup_wrong_direction(&mut self, address: u8, setup: [u8; 8], data_out: &[u8]) -> (r: Result<
        ControlResult,
    >)
        ensures
            Self::control_step(
                *old(self),
                address,
                setup@,
                data_out@,
                with_wrong_status(),
                *final(self),
                r,
            ),
    {
        let mut opts = ControlForensics::default();
        opts.status_wrong_dir = true;
        self.control_raw(address, setup, data_out, opts)
    }

    /// Issue a control transfer with **no status stage** - never closing the
    /// transaction the way the spec requires.
    fn control_without_status(&mut self, address: u8, setup: [u8; 8], data_out: &[u8]) -> (r:
        Result<ControlResult>)
        ensures
            Self::control_step(
                *old(self),
                address,
                setup@,
                data_out@,
                without_status(),
                *final(self),
                r,
            ),
    {
        let mut opts = ControlForensics::default();
        opts.skip_status = true;
        self.control_raw(address, setup, data_out, opts)
    }

    /// Send any 8 SETUP bytes verbatim with otherwise-compliant stages - e.g. a
    /// reserved `bRequest`, an illegal `bmRequestType`, or a nonexistent recipient.
    fn raw_setup(&mut self, address: u8, setup: [u8; 8]) -> (r: Result<ControlResult>)
        ensures
            Self::control_step(
                *old(self),
                address,
                setup@,
                Seq::empty(),
                ControlForensics::compliant(),
                *final(self),
                r,
            ),
    {
        let nothing: &[u8] = &[];
        assert(nothing@ =~= Seq::<u8>::empty());
        self.control_raw(address, setup, nothing, ControlForensics::default())
    }

    /// Send an IN token to an address/endpoint that shouldn't answer and report
    /// whether anything responded (no retry - one shot, exact result).
    fn talk_to_unassigned(&mut self, address: u8, endpoint: u8) -> (r: Result<TransactionResult>)
        ensures
            Self::transaction_step(
                *old(self),
                probe(address, endpoint),
                *final(self),
                r,
            ),
    {
        let mut flags = TxFlags::default();
        flags.no_retry = true;
        let tx = RawTransaction { pid: Pid::In, address, endpoint, data: Vec::new(), flags };
        self.raw_transaction(tx)
    }

    /// Send an OUT data packet with a forced (possibly wrong) data PID, to
    /// desynchronise or probe the endpoint's toggle handling.
    fn toggle_desync(&mut self, address: u8, endpoint: u8, data: &[u8], pid: Pid) -> (r: Result<
        TransactionResult,
    >)
        ensures
            Self::transaction_step(
                *old(self),
                out_under(address, endpoint, data@, pid),
                *final(self),
                r,
            ),
    {
        let mut flags = TxFlags::default();
        flags.force_data_pid = Some(pid);
        flags.no_retry = true;
        let tx = RawTransaction {
            pid: Pid::Out,
            address,
            endpoint,
            data: slice_to_vec(data),
            flags,
        };
        self.raw_transaction(tx)
    }

    /// Send a packet longer than the endpoint's maximum (babble): `data` plus
    /// `extra` junk bytes.
    fn babble(&mut self, address: u8, endpoint: u8, data: &[u8], extra: usize) -> (r: Result<
        TransactionResult,
    >)
        ensures
            Self::transaction_step(
                *old(self),
                out_too_long(address, endpoint, data@, extra),
                *final(self),
                r,
            ),
    {
        let mut flags = TxFlags::default();
        flags.extra_bytes = extra;
        flags.no_retry = true;
        let tx = RawTransaction {
            pid: Pid::Out,
            address,
            endpoint,
            data: slice_to_vec(data),
            flags,
        };
        self.raw_transaction(tx)
    }

    /// Send a token with a corrupted PID check nibble - an illegal packet the
    /// device's hardware should reject.
    fn bad_pid(&mut self, address: u8, endpoint: u8, pid: Pid) -> (r: Result<TransactionResult>)
        ensures
            Self::transaction_step(
                *old(self),
                miscarried(address, endpoint, pid),
                *final(self),
                r,
            ),
    {
        let mut flags = TxFlags::default();
        flags.bad_pid_check = true;
        flags.no_retry = true;
        let tx = RawTransaction { pid, address, endpoint, data: Vec::new(), flags };
        self.raw_transaction(tx)
    }
}

impl<T: UsbHost> UsbForensics for T {

}

} // verus!
