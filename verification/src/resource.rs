//! Resource quotas that parsers enforce before trusting a container.

use vstd::prelude::*;
use crate::error::{owned, PoxError, Result};
use crate::text::{decimal, u64_to_decimal};

verus! {

/// Limits on file size, tensor count and allocations.
#[derive(Debug, Clone, PartialEq, Eq)]
pub struct ResourceLimits {
    pub max_file_size_bytes: u64,
    pub max_tensor_count: usize,
    pub max_tensor_dimensions: usize,
    pub max_allocation_bytes: u64,
}

impl Default for ResourceLimits {
    /// 100 GiB files, 100 000 tensors, 1 000 000 dimensions, 64 GiB allocations.
    fn default() -> (r: Self)
        ensures
            r.max_file_size_bytes == 100 * 1024 * 1024 * 1024,
            r.max_tensor_count == 100_000,
            r.max_tensor_dimensions == 1_000_000,
            r.max_allocation_bytes == 64 * 1024 * 1024 * 1024,
    {
        ResourceLimits {
            max_file_size_bytes: 100 * 1024 * 1024 * 1024,
            max_tensor_count: 100_000,
            max_tensor_dimensions: 1_000_000,
            max_allocation_bytes: 64 * 1024 * 1024 * 1024,
        }
    }
}

impl ResourceLimits {
    pub fn validate_file_size(&self, size: u64) -> (r: Result<()>)
        ensures
            size <= self.max_file_size_bytes ==> r is Ok,
            size > self.max_file_size_bytes ==> (r matches Err(PoxError::ResourceLimit(m)) && m@
                == "File size "@ + decimal(size as nat) + " exceeds maximum quota "@ + decimal(
                self.max_file_size_bytes as nat,
            )),
    {
        if size > self.max_file_size_bytes {
            let mut m = owned("File size ");
            m.append(u64_to_decimal(size).as_str());
            m.append(" exceeds maximum quota ");
            m.append(u64_to_decimal(self.max_file_size_bytes).as_str());
            return Err(PoxError::ResourceLimit(m));
        }
        Ok(())
    }

    pub fn validate_tensor_count(&self, count: usize) -> (r: Result<()>)
        ensures
            count <= self.max_tensor_count ==> r is Ok,
            count > self.max_tensor_count ==> (r matches Err(PoxError::ResourceLimit(m)) && m@
                == "Tensor count "@ + decimal(count as nat) + " exceeds maximum allowed "@ + decimal(
                self.max_tensor_count as nat,
            )),
    {
        if count > self.max_tensor_count {
            let mut m = owned("Tensor count ");
            m.append(u64_to_decimal(count as u64).as_str());
            m.append(" exceeds maximum allowed ");
            m.append(u64_to_decimal(self.max_tensor_count as u64).as_str());
            return Err(PoxError::ResourceLimit(m));
        }
        Ok(())
    }

    /// Checks that `[offset, offset + len)` lies inside a file of `file_size` bytes.
    pub fn validate_tensor_bounds(&self, offset: u64, len: u64, file_size: u64) -> (r: Result<()>)
        ensures
            offset + len > u64::MAX ==> (r matches Err(PoxError::Security(m)) && m@
                == "Arithmetic overflow calculating tensor boundaries"@),
            offset + len <= u64::MAX && offset + len > file_size ==> (r matches Err(
                PoxError::Security(m),
            ) && m@ == "Tensor boundary ["@ + decimal(offset as nat) + ".."@ + decimal(
                (offset + len) as nat,
            ) + "] extends past file size "@ + decimal(file_size as nat)),
            offset + len <= file_size ==> r is Ok,
    {
        let end = match offset.checked_add(len) {
            Some(e) => e,
            None => {
                return Err(PoxError::Security(owned("Arithmetic overflow calculating tensor boundaries")));
            },
        };
        if end > file_size {
            let mut m = owned("Tensor boundary [");
            m.append(u64_to_decimal(offset).as_str());
            m.append("..");
            m.append(u64_to_decimal(end).as_str());
            m.append("] extends past file size ");
            m.append(u64_to_decimal(file_size).as_str());
            return Err(PoxError::Security(m));
        }
        Ok(())
    }
}

} // verus!
