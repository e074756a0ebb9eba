//! What `slmodemd` hands over at the start.

use vstd::prelude::*;

verus! {

/// The largest socket descriptor that is accepted. `slmodemd` passes 3 or 4;
/// anything above this comes from garbled arguments.
pub const FD_LIMIT: i32 = 4096;

/// Why a socket descriptor is not accepted.
#[derive(Debug, Clone, Copy, PartialEq, Eq, Structural)]
pub enum FdError {
    Negative,
    TooLarge,
}

/// What is said to a socket descriptor.
pub open spec fn fd_verdict(fd: int) -> Result<(), FdError> {
    if fd < 0 {
        Err(FdError::Negative)
    } else if fd > FD_LIMIT {
        Err(FdError::TooLarge)
    } else {
        Ok(())
    }
}

/// Whether `fd` can be the descriptor of the socket to `slmodemd`.
pub fn check_socket_fd(fd: i32) -> (result: Result<(), FdError>)
    ensures
        result == (if fd < 0 {
            Err(FdError::Negative)
        } else if fd > FD_LIMIT {
            Err(FdError::TooLarge)
        } else {
            Ok(())
        }),
        result == fd_verdict(fd as int),
{
    if fd < 0 {
        Err(FdError::Negative)
    } else if fd > FD_LIMIT {
        Err(FdError::TooLarge)
    } else {
        Ok(())
    }
}

/// The descriptors that are accepted are those from 0 to 4096. A descriptor that
/// is not is refused for the side on which it lies.
pub proof fn accepted_descriptors_are_a_range(fd: int)
    ensures
        fd_verdict(fd) is Ok <==> 0 <= fd <= 4096,
        fd_verdict(fd) == Err::<(), FdError>(FdError::Negative) <==> fd < 0,
        fd_verdict(fd) == Err::<(), FdError>(FdError::TooLarge) <==> fd > 4096,
{
}

} // verus!
