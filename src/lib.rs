//! Shared building blocks: a compact string, an atomic cancellation switch,
//! and a broadcast topic with a progress-reporting transmitter on top of it.
mod dstr;
mod progress;
mod switch;

pub use crate::dstr::{byte_cmp, text_cmp, DStr, Repr, StackBuf, INLINE_LEN};
pub use crate::progress::{
    digit_char, dropped_count, kept, lemma_kept_len, lemma_one_refused, percent_field, rendered, retain_delivered,
    send_or_remove, Progress, ProgressTx, Publisher, Subscriber, Topic,
};
pub use crate::switch::Switch;
