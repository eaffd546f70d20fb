//! The segment document: the record of one traced unit of work, from its
//! beginning to its end.

use crate::ids::{is_segment_id_text, is_trace_id_text, SegmentId, TraceId};
use crate::text::{chars_of, string_of_range};
use crate::time::Seconds;
use serde_json::Value;
use std::collections::HashMap;
use vstd::prelude::*;

verus! {

/// `serde_json::Value`, a JSON value of any shape. A segment carries such
/// values as metadata and never looks inside them.
#[verifier::external_type_specification]
#[verifier::external_body]
pub struct ExValue(Value);

/// The greatest number of characters that the name of a segment has.
pub const MAX_NAME_LEN: usize = 200;

/// `name` cut down to its first `MAX_NAME_LEN` characters, or `name` itself
/// where it has no more than that.
pub open spec fn truncated_name(name: Seq<char>) -> Seq<char> {
    if name.len() > MAX_NAME_LEN {
        name.take(MAX_NAME_LEN as int)
    } else {
        name
    }
}

/// A name that has been cut down is the beginning of the name, all of it where
/// the name is within the limit, and exactly `MAX_NAME_LEN` characters of it
/// otherwise.
pub proof fn lemma_truncated_name(name: Seq<char>)
    ensures
        truncated_name(name).is_prefix_of(name),
        truncated_name(name).len() <= MAX_NAME_LEN,
        name.len() <= MAX_NAME_LEN ==> truncated_name(name) == name,
        name.len() > MAX_NAME_LEN ==> truncated_name(name).len() == MAX_NAME_LEN,
{
}

/// `name`, cut down to its first `MAX_NAME_LEN` characters where it has more.
pub fn truncate_name(name: String) -> (valid: String)
    ensures
        valid@ == truncated_name(name@),
{
    let cs = chars_of(name.as_str());
    if cs.len() > MAX_NAME_LEN {
        string_of_range(cs.as_slice(), 0, MAX_NAME_LEN)
    } else {
        name
    }
}

/// Description of an event of one service's handling of a request.
#[derive(Debug)]
pub struct Segment {
    /// A unique identifier that connects all segments and subsegments
    /// originating from a single client request.
    pub trace_id: TraceId,
    /// A 64-bit identifier for the segment, unique among segments in the same
    /// trace, in 16 hexadecimal digits.
    pub id: SegmentId,
    /// The logical name of the service that handled the request, up to 200
    /// characters.
    pub name: String,
    /// The time the segment was created.
    pub start_time: Seconds,
    /// The time the segment was closed.
    pub end_time: Option<Seconds>,
    /// Set instead of an `end_time` to record that a segment is started, but is
    /// not complete.
    pub in_progress: bool,
    /// A subsegment id, where the request originated from an instrumented
    /// application.
    pub parent_id: Option<SegmentId>,
    /// Indicates that a server error occurred (response status code was 5XX).
    pub fault: bool,
    /// Indicates that a client error occurred (response status code was 4XX).
    pub error: bool,
    /// Indicates that a request was throttled (response status code was 429).
    pub throttle: bool,
    /// Information about the exception that caused an error.
    pub cause: Option<Cause>,
    /// The type of AWS resource running the application.
    pub origin: Option<String>,
    /// A string that identifies the user who sent the request.
    pub user: Option<String>,
    /// The ARN of the AWS resource that the segment is about.
    pub resource_arn: Option<String>,
    /// Key-value pairs to index for search.
    pub annotations: Option<HashMap<String, Annotation>>,
    /// Any additional data to store in the segment.
    pub metadata: Option<HashMap<String, Value>>,
    /// Information about the AWS resource on which the application served the
    /// request.
    pub aws: Option<Aws>,
    /// Information about the application.
    pub service: Option<Service>,
}

/// A value which may be used for filter querying.
#[derive(Debug)]
pub enum Annotation {
    /// A string value
    String(String),
    /// A numeric value
    Number(usize),
    /// A boolean value
    Bool(bool),
}

impl Default for Annotation {
    /// The empty string.
    fn default() -> (annotation: Annotation)
        ensures
            annotation matches Annotation::String(text) && text@.len() == 0,
    {
        Annotation::String(String::new())
    }
}

/// Describes an http request/response cycle.
#[derive(Debug, Default)]
pub struct Http {
    /// Information about a request.
    pub request: Option<Request>,
    /// Information about a response.
    pub response: Option<Response>,
}

/// Information about a request.
#[derive(Debug, Default)]
pub struct Request {
    /// The request method. For example, GET.
    pub method: Option<String>,
    /// The full URL of the request, compiled from the protocol, hostname, and
    /// path of the request.
    pub url: Option<String>,
    /// The IP address of the requester.
    pub client_ip: Option<String>,
    /// The user agent string from the requester's client.
    pub user_agent: Option<String>,
    /// Tells that the `client_ip` was read from an `X-Forwarded-For` header and
    /// may have been forged.
    pub x_forwarded_for: Option<String>,
    /// Tells that the downstream call is to another traced service.
    pub traced: Option<bool>,
}

/// Information about a response.
#[derive(Debug, Default)]
pub struct Response {
    /// The HTTP status of the response.
    pub status: Option<u16>,
    /// The length of the response body in bytes.
    pub content_length: Option<u64>,
}

/// Information about the application.
#[derive(Debug, Default)]
pub struct Service {
    /// A string that identifies the version of the application that served the
    /// request.
    pub version: Option<String>,
}

/// Context information about the AWS environment a segment was run in.
#[derive(Debug, Default)]
pub struct Aws {
    /// The id of the account running the application, where segments are sent
    /// to a different account.
    pub account_id: Option<String>,
    /// Information about an Amazon ECS container.
    pub ecs: Option<Ecs>,
    /// Information about an EC2 instance.
    pub ec2: Option<Ec2>,
    /// Information about an Elastic Beanstalk environment.
    pub elastic_beanstalk: Option<ElasticBeanstalk>,
    /// Information about the tracing SDK.
    pub tracing: Option<Tracing>,
    /// Information about the X-Ray SDK.
    pub xray: Option<XRay>,
}

/// Information about the X-Ray SDK.
#[derive(Debug, Default)]
pub struct XRay {
    /// The version of the SDK.
    pub sdk_version: Option<String>,
}

/// Information about an Amazon ECS container.
#[derive(Debug, Default)]
pub struct Ecs {
    /// The container id of the container running the application.
    pub container: Option<String>,
}

/// Information about an EC2 instance.
#[derive(Debug, Default)]
pub struct Ec2 {
    /// The instance id of the EC2 instance.
    pub instance_id: Option<String>,
    /// The Availability Zone in which the instance is running.
    pub availability_zone: Option<String>,
}

/// Information about an Elastic Beanstalk environment.
#[derive(Debug, Default)]
pub struct ElasticBeanstalk {
    /// The name of the environment.
    pub environment_name: Option<String>,
    /// The name of the application version that is currently deployed to the
    /// instance that served the request.
    pub version_label: Option<String>,
    /// The id of the last successful deployment to the instance that served the
    /// request.
    pub deployment_id: Option<usize>,
}

/// Information about the tracing SDK.
#[derive(Debug, Default)]
pub struct Tracing {
    /// The version of the SDK.
    pub sdk: String,
}

/// Detailed representation of an exception.
#[derive(Debug)]
pub struct Exception {
    /// A 64-bit identifier for the exception, unique among segments in the same
    /// trace, in 16 hexadecimal digits.
    pub id: String,
    /// The exception message.
    pub messages: Option<String>,
    /// Whether the exception was caused by an error returned by a downstream
    /// service.
    pub remote: Option<bool>,
    /// The number of stack frames that are omitted from the stack.
    pub truncated: Option<usize>,
    /// The number of exceptions that were skipped between this exception and
    /// its child, that is, the exception that it caused.
    pub skipped: Option<usize>,
    /// Exception id of the exception's parent, that is, the exception that
    /// caused this exception.
    pub cause: Option<String>,
    /// The stack frames.
    pub stack: Vec<StackFrame>,
}

/// A summary of a single operation within a stack trace.
#[derive(Debug)]
pub struct StackFrame {
    /// The relative path to the file.
    pub path: Option<String>,
    /// The line in the file.
    pub line: Option<String>,
    /// The function or method name.
    pub label: Option<String>,
}

/// The cause of an error.
#[derive(Debug)]
pub enum Cause {
    /// A 16 character exception id
    Name(String),
    /// A description of an error
    Description {
        /// The full path of the working directory when the exception occurred.
        working_directory: String,
        /// The paths to libraries or modules in use when the exception
        /// occurred.
        paths: Vec<String>,
        /// The exceptions.
        exceptions: Vec<Exception>,
    },
}

impl Segment {
    /// Whether the segment is either in progress or ended, and not both, and
    /// its name is no longer than the limit.
    pub open spec fn well_formed(&self) -> bool {
        &&& self.in_progress != (self.end_time is Some)
        &&& self.name@.len() <= MAX_NAME_LEN
    }

    /// Whether the segment is as it is when it begins under `name`: it bears
    /// the name, cut down to the limit, is in progress, and nothing else has
    /// been said of it.
    pub open spec fn begun(&self, name: Seq<char>) -> bool {
        &&& self.name@ == truncated_name(name)
        &&& self.in_progress
        &&& self.end_time is None
        &&& self.parent_id is None
        &&& !self.fault
        &&& !self.error
        &&& !self.throttle
        &&& self.cause is None
        &&& self.origin is None
        &&& self.user is None
        &&& self.resource_arn is None
        &&& self.annotations is None
        &&& self.metadata is None
        &&& self.aws is None
        &&& self.service is None
    }

    /// Begins a segment under `name` with the given ids and time of creation.
    pub fn begin_with(
        name: String,
        trace_id: TraceId,
        id: SegmentId,
        start_time: Seconds,
    ) -> (segment: Segment)
        ensures
            segment.begun(name@),
            segment.well_formed(),
            segment.trace_id == trace_id,
            segment.id == id,
            segment.start_time == start_time,
    {
        Segment {
            trace_id,
            id,
            name: truncate_name(name),
            start_time,
            end_time: None,
            in_progress: true,
            parent_id: None,
            fault: false,
            error: false,
            throttle: false,
            cause: None,
            origin: None,
            user: None,
            resource_arn: None,
            annotations: None,
            metadata: None,
            aws: None,
            service: None,
        }
    }

    /// Begins a new named segment, with newly generated ids, at the current
    /// time. A name of more than 200 characters is cut down to its first 200.
    pub fn begin(name: String) -> (segment: Segment)
        ensures
            segment.begun(name@),
            segment.well_formed(),
            segment.trace_id is New,
            segment.trace_id->New_0 < 0x1_0000_0000 ==> is_trace_id_text(segment.trace_id@),
            segment.id is New,
            is_segment_id_text(segment.id@),
    {
        Segment::begin_with(name, TraceId::new(), SegmentId::new(), Seconds::now())
    }

    /// The segment as it is after it has ended at the time `at`: it has that
    /// end, is not in progress, and is otherwise as before.
    pub open spec fn ended_at(self, at: Seconds) -> Segment {
        Segment { end_time: Some(at), in_progress: false, ..self }
    }

    /// Ends the segment at the time `at`. A segment that has ended before gets
    /// the new time.
    pub fn end_at(&mut self, at: Seconds) -> (ret: &mut Segment)
        ensures
            *ret == old(self).ended_at(at),
            *final(self) == *final(ret),
    {
        self.end_time = Some(at);
        self.in_progress = false;
        self
    }

    /// Ends the segment at the current time. A segment that has ended before
    /// gets the new time.
    pub fn end(&mut self) -> (ret: &mut Segment)
        ensures
            ret.end_time is Some,
            *ret == old(self).ended_at(ret.end_time->0),
            *final(self) == *final(ret),
    {
        self.end_at(Seconds::now())
    }
}

impl Default for Segment {
    /// A segment that begins without a name.
    fn default() -> (segment: Segment)
        ensures
            segment.begun(Seq::empty()),
            segment.well_formed(),
    {
        Segment::begin(String::new())
    }
}

/// A segment that has begun is in progress and has no end. A segment that has
/// been ended, whatever it was before, has an end and is not in progress.
/// Either way exactly one of the two holds, and the name stays within its
/// limit. Ending a segment again leaves only the later time.
pub proof fn lemma_begin_end(segment: Segment, name: Seq<char>, at: Seconds, later: Seconds)
    ensures
        segment.begun(name) ==> segment.in_progress && segment.end_time is None
            && segment.well_formed(),
        !segment.ended_at(at).in_progress,
        segment.ended_at(at).end_time == Some(at),
        segment.name@.len() <= MAX_NAME_LEN ==> segment.ended_at(at).well_formed(),
        segment.ended_at(at).ended_at(later) == segment.ended_at(later),
{
}

} // verus!
