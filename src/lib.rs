//! Routing and task combinators for HTTP endpoints.
//!
//! Serving a request has two phases. In the routing phase an [`Endpoint`] is
//! applied to an [`EndpointContext`]: it reads the request and advances a
//! [`Segments`] cursor over the path, and either fails with an
//! [`EndpointError`] or yields a [`Task`]. In the execution phase the task is
//! polled until it is ready with a tuple of [`Value`]s or an [`Error`].
//!
//! Every task has a denotation ([`task_den`]): after how many polls that
//! report `Pending` it is ready, and with what outcome. [`Task::poll_task`]
//! is proved against it, and [`apply_den`] states what applying an endpoint
//! gives, in those terms.
//!
//! Empty segments: the cursor splits strictly at `/`, so `//` in a path
//! gives an empty segment. [`to_path_segments`], which splits a path into
//! owned strings, leaves out every piece that is blank.

mod segments;

pub use segments::{
    advance, advance_n, after_segment, drain, lemma_drain_advance, lemma_exhausted_stays,
    lemma_segment_end, next_text, rest_text, segment_end, segments_from, start_of, Segment,
    SegmentView, Segments, SegmentsView,
};

mod poll;

pub use poll::{Poll, PollError};

mod error;

pub use error::{
    error_status, error_text, is_merge_of, kind_status, lemma_merge_precedence, merge_kind,
    method_at, method_bit, method_index, method_list, method_name, EndpointError,
    EndpointErrorKind, Error, InvalidRequest, Method, Verbs,
};

mod value;

pub use value::{
    copy_bytes, copy_tuple, lemma_list_model, lemma_tuple_model, list_model, tuple_model,
    value_view, Value, ValueV,
};

mod task;

pub use task::{
    absent_den, chain_applies, chain_den, copy_outcome, either_den, lemma_all_in_order,
    lemma_and_fails_first, lemma_slots_prefix, lift_den, list_den, max_nat, outcome_view,
    poll_step, race, shift, single, slot_den, slot_live, slots_den, slots_live, task_den,
    task_live, transform_delay, transform_result, unit, ChainMode, MaybeDone, OutcomeV, Task,
    Transform,
};

mod convert;

pub use convert::{
    convert, convert_spec, digits_value, is_digit, parse_decimal, parse_uint, percent_decoded,
    ParamKind,
};

mod context;

pub use context::{
    form_pairs, header_value, initial_context, is_blank, is_white_space, last_value, pairs_view,
    route_pieces, to_path_segments, with_cursor, Context, ContextView, EndpointContext, Request,
};

mod endpoint;

pub use endpoint::{
    all, all_convert, all_den, apply_den, apply_post, apply_request, body_taken_error,
    converted_list, deferred, eos, header, invalid_param, lemma_and_concatenates,
    lemma_body_taken_once, lemma_failed_match_keeps_cursor, rejection_for, Rejection, lemma_or_strict_left_wins, lemma_remains_drains, param, params,
    raw_body, remains, segment, segment_encoding, unit_den, value, value_den, verb, ApplyDen,
    Endpoint,
};

mod service;

pub use service::{
    outcome_model, outcome_status, serve_den, served, service_den, service_live, Outcome,
    OutcomeModel, ServiceFuture, ServiceState,
};
