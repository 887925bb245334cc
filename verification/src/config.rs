//! What an endpoint is configured with before a connection exists.

use crate::error::Error;
use vstd::prelude::*;

verus! {

/// The configuration of an HTTP/3 endpoint.
#[derive(Clone, Debug)]
pub struct H3Config {
    /// The version of the transport protocol to speak.
    pub version: u32,
    /// The directory that requested paths are resolved in.
    pub root_dir: String,
    /// How many placeholders the priority tree keeps.
    pub num_placeholders: u64,
    /// The largest header list the endpoint accepts.
    pub max_header_list_size: u64,
    /// The largest dynamic table the QPACK decoder accepts.
    pub qpack_max_table_capacity: u64,
    /// How many streams QPACK may block.
    pub qpack_blocked_streams: u64,
}

impl H3Config {
    /// Creates a configuration for the given version of the transport, with
    /// an empty root directory, 16 placeholders and every other limit zero.
    pub fn new(version: u32) -> (r: Result<H3Config, Error>)
        ensures
            r is Ok,
            r->Ok_0.version == version,
            r->Ok_0.root_dir@ == Seq::<char>::empty(),
            r->Ok_0.num_placeholders == 16,
            r->Ok_0.max_header_list_size == 0,
            r->Ok_0.qpack_max_table_capacity == 0,
            r->Ok_0.qpack_blocked_streams == 0,
    {
        Ok(
            H3Config {
                version,
                root_dir: String::new(),
                num_placeholders: 16,
                max_header_list_size: 0,
                qpack_max_table_capacity: 0,
                qpack_blocked_streams: 0,
            },
        )
    }

    /// Sets the directory that requested paths are resolved in.
    pub fn set_root_dir(&mut self, root_dir: &String)
        ensures
            *final(self) == (H3Config { root_dir: *root_dir, ..*old(self) }),
    {
        self.root_dir = root_dir.clone();
    }

    /// Sets how many placeholders the priority tree keeps.
    pub fn set_num_placeholders(&mut self, num_placeholders: u64)
        ensures
            *final(self) == (H3Config { num_placeholders, ..*old(self) }),
    {
        self.num_placeholders = num_placeholders;
    }

    /// Sets the largest header list the endpoint accepts.
    pub fn set_max_header_list_size(&mut self, max_header_list_size: u64)
        ensures
            *final(self) == (H3Config { max_header_list_size, ..*old(self) }),
    {
        self.max_header_list_size = max_header_list_size;
    }

    /// Sets the largest dynamic table the QPACK decoder accepts.
    pub fn set_qpack_max_table_capacity(&mut self, qpack_max_table_capacity: u64)
        ensures
            *final(self) == (H3Config { qpack_max_table_capacity, ..*old(self) }),
    {
        self.qpack_max_table_capacity = qpack_max_table_capacity;
    }

    /// Sets how many streams QPACK may block.
    pub fn set_qpacked_blocked_streams(&mut self, qpack_blocked_streams: u64)
        ensures
            *final(self) == (H3Config { qpack_blocked_streams, ..*old(self) }),
    {
        self.qpack_blocked_streams = qpack_blocked_streams;
    }
}

} // verus!
