//! The bitstream programming workflow: query the device's stored-image
//! inventory; if the target image is resident and no reload is forced,
//! program it directly; otherwise negotiate an upload port, stream the
//! file over a secondary connection, wait the settle interval, and poll
//! the post-upload status.  Failures are terminal for the invocation
//! and surface to the caller; nothing is retried.

use vstd::prelude::*;

use crate::escape::{escape_argument, lemma_str_arg_valid, parsed_str_arg, str_arg_of,
    unescape_argument};
use crate::msg::{check_reply_ok, reply_code_of, valid_name, wf_message, ClientError, Message,
    MessageKind, MessageView, RetCode};
use crate::numbers::{dec_of, lemma_dec_of_valid_argument, parse_u32_argument, parsed_u32,
    u32_to_dec};
use crate::strutil::str_eq;

verus! {

/// The request that lists the gateware images stored on the device.
pub open spec fn listbof_request_view() -> MessageView {
    (MessageView { kind: MessageKind::Request, name: "listbof"@, args: Seq::empty() })
}

/// Builds the stored-image inventory request.
pub fn listbof_request() -> (m: Message)
    ensures
        m@ == listbof_request_view(),
        wf_message(m@),
{
    let m = Message {
        kind: MessageKind::Request,
        name: String::from_str("listbof"),
        arguments: Vec::new(),
    };
    proof {
        reveal_strlit("listbof");
        assert(valid_name("listbof"@));
        assert(m@.args =~= Seq::<Seq<char>>::empty());
    }
    m
}

/// The request that programs the device from a stored image.
pub open spec fn progdev_request_view(filename: Seq<char>) -> MessageView {
    (MessageView {
        kind: MessageKind::Request,
        name: "progdev"@,
        args: seq![str_arg_of(filename)],
    })
}

/// Builds the program-from-stored-image request.
pub fn progdev_request(filename: &str) -> (m: Message)
    ensures
        m@ == progdev_request_view(filename@),
        wf_message(m@),
{
    let mut arguments: Vec<String> = Vec::new();
    arguments.push(escape_argument(filename));
    let m = Message { kind: MessageKind::Request, name: String::from_str("progdev"), arguments };
    proof {
        reveal_strlit("progdev");
        assert(valid_name("progdev"@));
        lemma_str_arg_valid(filename@);
        assert(m@.args =~= seq![str_arg_of(filename@)]);
    }
    m
}

/// The request that opens an upload port on the device.
pub open spec fn progremote_request_view(port: u16) -> MessageView {
    (MessageView {
        kind: MessageKind::Request,
        name: "progremote"@,
        args: seq![dec_of(port as nat)],
    })
}

/// Builds the upload-port request.
pub fn progremote_request(port: u16) -> (m: Message)
    ensures
        m@ == progremote_request_view(port),
        wf_message(m@),
{
    let mut arguments: Vec<String> = Vec::new();
    arguments.push(u32_to_dec(port as u32));
    let m = Message { kind: MessageKind::Request, name: String::from_str("progremote"), arguments };
    proof {
        reveal_strlit("progremote");
        assert(valid_name("progremote"@));
        lemma_dec_of_valid_argument(port as nat);
        assert(m@.args =~= seq![dec_of(port as nat)]);
    }
    m
}

/// The request that polls the device's post-upload status.
pub open spec fn fpgastatus_request_view() -> MessageView {
    (MessageView { kind: MessageKind::Request, name: "fpgastatus"@, args: Seq::empty() })
}

/// Builds the status poll request.
pub fn fpgastatus_request() -> (m: Message)
    ensures
        m@ == fpgastatus_request_view(),
        wf_message(m@),
{
    let m = Message {
        kind: MessageKind::Request,
        name: String::from_str("fpgastatus"),
        arguments: Vec::new(),
    };
    proof {
        reveal_strlit("fpgastatus");
        assert(valid_name("fpgastatus"@));
        assert(m@.args =~= Seq::<Seq<char>>::empty());
    }
    m
}

/// A well-formed inventory inform: one filename argument.
pub open spec fn listbof_inform_ok(m: MessageView) -> bool {
    &&& m.kind == MessageKind::Inform
    &&& m.name == "listbof"@
    &&& m.args.len() == 1
    &&& parsed_str_arg(m.args[0]) is Some
}

/// A consistent inventory exchange: the reply reports success and a
/// count that equals the number of preceding filename informs, each of
/// which is well-formed.
pub open spec fn listbof_shape_ok(msgs: Seq<MessageView>) -> bool {
    &&& msgs.len() > 0
    &&& reply_code_of(msgs.last(), "listbof"@) == Some(RetCode::Okay)
    &&& msgs.last().args.len() == 2
    &&& parsed_u32(msgs.last().args[1]) is Some
    &&& parsed_u32(msgs.last().args[1]).unwrap() as int == msgs.len() - 1
    &&& forall|i: int| 0 <= i < msgs.len() - 1 ==> listbof_inform_ok(#[trigger] msgs[i])
}

/// The filenames a consistent inventory exchange carries, in order.
pub open spec fn listbof_files(msgs: Seq<MessageView>) -> Seq<Seq<char>> {
    msgs.take(msgs.len() - 1).map_values(|m: MessageView| parsed_str_arg(m.args[0]).unwrap())
}

/// Extracts the stored-image inventory from a completed exchange.  A
/// reply whose count does not match the number of filename informs is
/// a protocol-consistency failure, reported and never truncated; a
/// reply reporting a device failure carries the device's own code.
#[verifier::loop_isolation(false)]
pub fn parse_listbof_reply(messages: &Vec<Message>) -> (r: Result<Vec<String>, ClientError>)
    ensures
        r is Ok <==> listbof_shape_ok(messages.deep_view()),
        r matches Ok(files) ==> files.deep_view() == listbof_files(messages.deep_view()),
        messages@.len() == 0 ==> (r matches Err(e) && e is Protocol),
        messages@.len() > 0 ==> match reply_code_of(messages.deep_view().last(), "listbof"@) {
            Some(code) => code != RetCode::Okay ==> (r matches Err(e) && (e
                matches ClientError::Device { name, code: c } && name@ == messages.deep_view().last().name
                && c == code)),
            None => r matches Err(e) && e is Protocol,
        },
{
    proof {
        reveal_strlit("listbof");
    }
    if messages.len() == 0 {
        return Err(ClientError::Protocol { name: String::from_str("listbof") });
    }
    let last = &messages[messages.len() - 1];
    match check_reply_ok(last, "listbof") {
        Ok(()) => (),
        Err(e) => {
            return Err(e);
        },
    }
    if last.arguments.len() != 2 {
        return Err(ClientError::Protocol { name: last.name.clone() });
    }
    let count = match parse_u32_argument(last.arguments[1].as_str()) {
        Some(n) => n,
        None => {
            return Err(ClientError::Protocol { name: last.name.clone() });
        },
    };
    if count as usize != messages.len() - 1 {
        return Err(ClientError::Protocol { name: last.name.clone() });
    }
    let mut files: Vec<String> = Vec::new();
    let mut i: usize = 0;
    let ghost dv = messages.deep_view();
    while i < messages.len() - 1
        invariant
            messages@.len() > 0,
            dv == messages.deep_view(),
            dv.len() == messages@.len(),
            0 <= i <= dv.len() - 1,
            forall|j: int| 0 <= j < i ==> listbof_inform_ok(#[trigger] dv[j]),
            files.deep_view().len() == i,
            forall|j: int|
                0 <= j < i ==> #[trigger] files.deep_view()[j] == parsed_str_arg(
                    dv[j].args[0],
                ).unwrap(),
        decreases messages@.len() - 1 - i,
    {
        let m = &messages[i];
        proof {
            assert(dv[i as int] == m@);
        }
        if !matches!(m.kind, MessageKind::Inform) {
            return Err(ClientError::Protocol { name: m.name.clone() });
        }
        if !str_eq(m.name.as_str(), "listbof") {
            return Err(ClientError::Protocol { name: m.name.clone() });
        }
        if m.arguments.len() != 1 {
            return Err(ClientError::Protocol { name: m.name.clone() });
        }
        match unescape_argument(m.arguments[0].as_str()) {
            Some(f) => {
                proof {
                    assert(parsed_str_arg(dv[i as int].args[0]) is Some && f@ == parsed_str_arg(
                        dv[i as int].args[0],
                    ).unwrap());
                }
                let ghost fv = f@;
                let ghost files_before = files.deep_view();
                files.push(f);
                proof {
                    assert(files.deep_view() =~= files_before.push(fv));
                }
            },
            None => {
                return Err(ClientError::Protocol { name: m.name.clone() });
            },
        }
        i += 1;
    }
    proof {
        assert(listbof_shape_ok(dv));
        assert(files.deep_view() =~= listbof_files(dv));
    }
    Ok(files)
}

/// Which way the workflow went after the inventory check.
#[derive(Debug, Clone, Copy, PartialEq, Eq, Structural)]
pub enum LoadDecision {
    /// The image is resident and no reload was forced: program it
    /// directly from storage.
    UseStored,
    /// The image is absent or a reload was forced: upload it.
    UploadNeeded,
}

/// Where the workflow stands.
#[derive(Debug, Clone, Copy, PartialEq, Eq, Structural)]
pub enum LoadPhase {
    /// Querying the stored-image inventory.
    Inventory,
    /// Programming from a stored image.
    Programming,
    /// Requesting an upload port.
    PortRequest,
    /// Streaming the file over the secondary connection.
    Uploading,
    /// Waiting the fixed settle interval after the upload.
    Settling,
    /// Polling the post-upload status.
    Polling,
    /// The workflow completed with every reply successful.
    Done,
    /// A reply failed; the workflow is abandoned.
    Failed,
}

/// What the workflow asks its driver to do next.
#[derive(Debug)]
pub enum LoadAction {
    /// Send this request and feed the completed exchange back.
    SendRequest(Message),
    /// Open the secondary connection to the device's address on this
    /// port, stream the whole file, and shut the connection down
    /// cleanly.
    UploadFile { port: u16 },
    /// Wait this many milliseconds.
    Settle(u64),
}

/// The settle interval between the upload and the status poll, in
/// milliseconds.
pub open spec fn upload_settle_millis() -> u64 {
    10000u64
}

/// The bitstream programming state machine.  The driver repeatedly
/// asks for the next action, performs it, and feeds the outcome back.
pub struct LoadWorkflow {
    filename: String,
    force: bool,
    port: u16,
    phase: LoadPhase,
}

impl LoadWorkflow {
    /// The target image name.
    pub closed spec fn filename(self) -> Seq<char> {
        self.filename@
    }

    /// An upload was demanded even for a resident image.
    pub closed spec fn force(self) -> bool {
        self.force
    }

    /// The upload port to negotiate.
    pub closed spec fn port(self) -> u16 {
        self.port
    }

    /// Where the workflow stands.
    pub closed spec fn phase(self) -> LoadPhase {
        self.phase
    }

    /// The parameters never change after construction.
    pub open spec fn same_params(pre: LoadWorkflow, post: LoadWorkflow) -> bool {
        &&& post.filename() == pre.filename()
        &&& post.force() == pre.force()
        &&& post.port() == pre.port()
    }

    /// Starts a load of the named image.
    pub fn new(filename: &str, force: bool, port: u16) -> (s: LoadWorkflow)
        ensures
            s.filename() == filename@,
            s.force() == force,
            s.port() == port,
            s.phase() == LoadPhase::Inventory,
    {
        LoadWorkflow {
            filename: String::from_str(filename),
            force,
            port,
            phase: LoadPhase::Inventory,
        }
    }

    /// The workflow ran to completion with every reply successful.
    pub fn done(&self) -> (b: bool)
        ensures
            b == (self.phase() == LoadPhase::Done),
    {
        matches!(self.phase, LoadPhase::Done)
    }

    /// Hands out the next action of the current phase; after success
    /// or failure there is nothing left to do.
    pub fn next_action(&self) -> (r: Option<LoadAction>)
        ensures
            self.phase() == LoadPhase::Inventory ==> (r matches Some(a) && (a
                matches LoadAction::SendRequest(m) && m@ == listbof_request_view() && wf_message(
                m@,
            ))),
            self.phase() == LoadPhase::Programming ==> (r matches Some(a) && (a
                matches LoadAction::SendRequest(m) && m@ == progdev_request_view(self.filename())
                && wf_message(m@))),
            self.phase() == LoadPhase::PortRequest ==> (r matches Some(a) && (a
                matches LoadAction::SendRequest(m) && m@ == progremote_request_view(self.port())
                && wf_message(m@))),
            self.phase() == LoadPhase::Uploading ==> (r matches Some(a) && (a
                matches LoadAction::UploadFile { port } && port == self.port())),
            self.phase() == LoadPhase::Settling ==> (r matches Some(a) && (a
                matches LoadAction::Settle(ms) && ms == upload_settle_millis())),
            self.phase() == LoadPhase::Polling ==> (r matches Some(a) && (a
                matches LoadAction::SendRequest(m) && m@ == fpgastatus_request_view()
                && wf_message(m@))),
            self.phase() == LoadPhase::Done || self.phase() == LoadPhase::Failed ==> r is None,
    {
        match self.phase {
            LoadPhase::Inventory => Some(LoadAction::SendRequest(listbof_request())),
            LoadPhase::Programming => Some(
                LoadAction::SendRequest(progdev_request(self.filename.as_str())),
            ),
            LoadPhase::PortRequest => Some(LoadAction::SendRequest(progremote_request(self.port))),
            LoadPhase::Uploading => Some(LoadAction::UploadFile { port: self.port }),
            LoadPhase::Settling => Some(LoadAction::Settle(10000)),
            LoadPhase::Polling => Some(LoadAction::SendRequest(fpgastatus_request())),
            LoadPhase::Done => None,
            LoadPhase::Failed => None,
        }
    }

    /// Feeds back the inventory exchange and decides the path: a
    /// resident image without a forced reload is programmed from
    /// storage; anything else goes through the upload port.
    #[verifier::loop_isolation(false)]
    pub fn on_inventory(&mut self, messages: &Vec<Message>) -> (r: Result<
        LoadDecision,
        ClientError,
    >)
        ensures
            Self::same_params(*old(self), *final(self)),
            old(self).phase() != LoadPhase::Inventory ==> (r matches Err(e) && e is Protocol
                && *final(self) == *old(self)),
            old(self).phase() == LoadPhase::Inventory ==> {
                &&& (r is Ok <==> listbof_shape_ok(messages.deep_view()))
                &&& (r matches Ok(d) ==> {
                    let files = listbof_files(messages.deep_view());
                    if files.contains(old(self).filename()) && !old(self).force() {
                        d == LoadDecision::UseStored && final(self).phase()
                            == LoadPhase::Programming
                    } else {
                        d == LoadDecision::UploadNeeded && final(self).phase()
                            == LoadPhase::PortRequest
                    }
                })
                &&& (r is Err ==> final(self).phase() == LoadPhase::Failed)
                &&& (r matches Err(e) ==> (messages@.len() > 0 ==> match reply_code_of(
                    messages.deep_view().last(),
                    "listbof"@,
                ) {
                    Some(code) => code != RetCode::Okay ==> (e matches ClientError::Device {
                        name,
                        code: c,
                    } && name@ == messages.deep_view().last().name && c == code),
                    None => e is Protocol,
                }))
            },
    {
        proof {
            reveal_strlit("listbof");
        }
        if !matches!(self.phase, LoadPhase::Inventory) {
            return Err(ClientError::Protocol { name: String::from_str("listbof") });
        }
        let files = match parse_listbof_reply(messages) {
            Ok(f) => f,
            Err(e) => {
                self.phase = LoadPhase::Failed;
                return Err(e);
            },
        };
        let ghost fseq = listbof_files(messages.deep_view());
        let mut resident = false;
        let mut i: usize = 0;
        while i < files.len()
            invariant
                files.deep_view() == fseq,
                0 <= i <= files@.len(),
                resident == exists|j: int| 0 <= j < i && #[trigger] fseq[j] == self.filename@,
                files@.len() == fseq.len(),
            decreases files@.len() - i,
        {
            if str_eq(files[i].as_str(), self.filename.as_str()) {
                proof {
                    assert(fseq[i as int] == self.filename@);
                }
                resident = true;
            } else {
                proof {
                    if !resident {
                        assert forall|j: int| !(0 <= j < i + 1 && #[trigger] fseq[j]
                            == self.filename@) by {
                            if 0 <= j < i {
                                assert(!(fseq[j] == self.filename@));
                            }
                        }
                    }
                }
            }
            i += 1;
        }
        proof {
            assert(resident == fseq.contains(self.filename@));
        }
        if resident && !self.force {
            self.phase = LoadPhase::Programming;
            Ok(LoadDecision::UseStored)
        } else {
            self.phase = LoadPhase::PortRequest;
            Ok(LoadDecision::UploadNeeded)
        }
    }

    /// Feeds back the program-from-storage exchange; success completes
    /// the workflow.
    pub fn on_progdev_reply(&mut self, messages: &Vec<Message>) -> (r: Result<(), ClientError>)
        ensures
            Self::same_params(*old(self), *final(self)),
            old(self).phase() != LoadPhase::Programming ==> (r matches Err(e) && e is Protocol
                && *final(self) == *old(self)),
            old(self).phase() == LoadPhase::Programming ==> {
                &&& (r is Ok <==> (messages@.len() > 0 && reply_code_of(
                    messages.deep_view().last(),
                    "progdev"@,
                ) == Some(RetCode::Okay)))
                &&& (r is Ok ==> final(self).phase() == LoadPhase::Done)
                &&& (r is Err ==> final(self).phase() == LoadPhase::Failed)
                &&& (r matches Err(e) ==> (messages@.len() > 0 ==> match reply_code_of(
                    messages.deep_view().last(),
                    "progdev"@,
                ) {
                    Some(code) => code != RetCode::Okay ==> (e matches ClientError::Device {
                        name,
                        code: c,
                    } && name@ == messages.deep_view().last().name && c == code),
                    None => e is Protocol,
                }))
            },
    {
        proof {
            reveal_strlit("progdev");
        }
        if !matches!(self.phase, LoadPhase::Programming) {
            return Err(ClientError::Protocol { name: String::from_str("progdev") });
        }
        if messages.len() == 0 {
            self.phase = LoadPhase::Failed;
            return Err(ClientError::Protocol { name: String::from_str("progdev") });
        }
        let last = &messages[messages.len() - 1];
        match check_reply_ok(last, "progdev") {
            Ok(()) => {
                self.phase = LoadPhase::Done;
                Ok(())
            },
            Err(e) => {
                self.phase = LoadPhase::Failed;
                Err(e)
            },
        }
    }

    /// Feeds back the upload-port exchange; success opens the upload.
    pub fn on_progremote_reply(&mut self, messages: &Vec<Message>) -> (r: Result<(), ClientError>)
        ensures
            Self::same_params(*old(self), *final(self)),
            old(self).phase() != LoadPhase::PortRequest ==> (r matches Err(e) && e is Protocol
                && *final(self) == *old(self)),
            old(self).phase() == LoadPhase::PortRequest ==> {
                &&& (r is Ok <==> (messages@.len() > 0 && reply_code_of(
                    messages.deep_view().last(),
                    "progremote"@,
                ) == Some(RetCode::Okay)))
                &&& (r is Ok ==> final(self).phase() == LoadPhase::Uploading)
                &&& (r is Err ==> final(self).phase() == LoadPhase::Failed)
                &&& (r matches Err(e) ==> (messages@.len() > 0 ==> match reply_code_of(
                    messages.deep_view().last(),
                    "progremote"@,
                ) {
                    Some(code) => code != RetCode::Okay ==> (e matches ClientError::Device {
                        name,
                        code: c,
                    } && name@ == messages.deep_view().last().name && c == code),
                    None => e is Protocol,
                }))
            },
    {
        proof {
            reveal_strlit("progremote");
        }
        if !matches!(self.phase, LoadPhase::PortRequest) {
            return Err(ClientError::Protocol { name: String::from_str("progremote") });
        }
        if messages.len() == 0 {
            self.phase = LoadPhase::Failed;
            return Err(ClientError::Protocol { name: String::from_str("progremote") });
        }
        let last = &messages[messages.len() - 1];
        match check_reply_ok(last, "progremote") {
            Ok(()) => {
                self.phase = LoadPhase::Uploading;
                Ok(())
            },
            Err(e) => {
                self.phase = LoadPhase::Failed;
                Err(e)
            },
        }
    }

    /// Acknowledges that the whole file was streamed and the secondary
    /// connection shut down cleanly.
    pub fn on_upload_complete(&mut self) -> (r: Result<(), ClientError>)
        ensures
            Self::same_params(*old(self), *final(self)),
            old(self).phase() != LoadPhase::Uploading ==> (r matches Err(e) && e is Protocol
                && *final(self) == *old(self)),
            old(self).phase() == LoadPhase::Uploading ==> r is Ok && final(self).phase()
                == LoadPhase::Settling,
    {
        if !matches!(self.phase, LoadPhase::Uploading) {
            return Err(ClientError::Protocol { name: String::from_str("progremote") });
        }
        self.phase = LoadPhase::Settling;
        Ok(())
    }

    /// Acknowledges the settle wait.
    pub fn on_settled(&mut self) -> (r: Result<(), ClientError>)
        ensures
            Self::same_params(*old(self), *final(self)),
            old(self).phase() != LoadPhase::Settling ==> (r matches Err(e) && e is Protocol
                && *final(self) == *old(self)),
            old(self).phase() == LoadPhase::Settling ==> r is Ok && final(self).phase()
                == LoadPhase::Polling,
    {
        if !matches!(self.phase, LoadPhase::Settling) {
            return Err(ClientError::Protocol { name: String::from_str("fpgastatus") });
        }
        self.phase = LoadPhase::Polling;
        Ok(())
    }

    /// Feeds back the status poll exchange; success completes the
    /// workflow, a failure reported by the device surfaces its code.
    pub fn on_status_reply(&mut self, messages: &Vec<Message>) -> (r: Result<(), ClientError>)
        ensures
            Self::same_params(*old(self), *final(self)),
            old(self).phase() != LoadPhase::Polling ==> (r matches Err(e) && e is Protocol
                && *final(self) == *old(self)),
            old(self).phase() == LoadPhase::Polling ==> {
                &&& (r is Ok <==> (messages@.len() > 0 && reply_code_of(
                    messages.deep_view().last(),
                    "fpgastatus"@,
                ) == Some(RetCode::Okay)))
                &&& (r is Ok ==> final(self).phase() == LoadPhase::Done)
                &&& (r is Err ==> final(self).phase() == LoadPhase::Failed)
                &&& (r matches Err(e) ==> (messages@.len() > 0 ==> match reply_code_of(
                    messages.deep_view().last(),
                    "fpgastatus"@,
                ) {
                    Some(code) => code != RetCode::Okay ==> (e matches ClientError::Device {
                        name,
                        code: c,
                    } && name@ == messages.deep_view().last().name && c == code),
                    None => e is Protocol,
                }))
            },
    {
        proof {
            reveal_strlit("fpgastatus");
        }
        if !matches!(self.phase, LoadPhase::Polling) {
            return Err(ClientError::Protocol { name: String::from_str("fpgastatus") });
        }
        if messages.len() == 0 {
            self.phase = LoadPhase::Failed;
            return Err(ClientError::Protocol { name: String::from_str("fpgastatus") });
        }
        let last = &messages[messages.len() - 1];
        match check_reply_ok(last, "fpgastatus") {
            Ok(()) => {
                self.phase = LoadPhase::Done;
                Ok(())
            },
            Err(e) => {
                self.phase = LoadPhase::Failed;
                Err(e)
            },
        }
    }
}

} // verus!
