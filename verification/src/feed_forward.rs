//! The sizes of the two-layer feed-forward block.

use vstd::prelude::*;

verus! {

/// Why a feed-forward block cannot be built with the requested sizes.
#[derive(Debug, Clone, Copy, PartialEq, Eq, Structural)]
pub enum FfnConfigError {
    ZeroInputSize,
    ZeroHiddenSize,
    ZeroOutputSize,
}

/// The error, if any, that building a feed-forward block with these sizes
/// reports; the sizes are checked in order.
pub open spec fn ffn_config_error(input_size: nat, hidden_size: nat, output_size: nat) -> Option<
    FfnConfigError,
> {
    if input_size == 0 {
        Some(FfnConfigError::ZeroInputSize)
    } else if hidden_size == 0 {
        Some(FfnConfigError::ZeroHiddenSize)
    } else if output_size == 0 {
        Some(FfnConfigError::ZeroOutputSize)
    } else {
        None
    }
}

/// The sizes of a feed-forward block: `input_size -> hidden_size ->
/// output_size`, all positive.
pub struct FfnShape {
    input_size: usize,
    hidden_size: usize,
    output_size: usize,
}

impl FfnShape {
    #[verifier::type_invariant]
    spec fn positive(self) -> bool {
        self.input_size > 0 && self.hidden_size > 0 && self.output_size > 0
    }

    pub closed spec fn spec_input_size(self) -> nat {
        self.input_size as nat
    }

    pub closed spec fn spec_hidden_size(self) -> nat {
        self.hidden_size as nat
    }

    pub closed spec fn spec_output_size(self) -> nat {
        self.output_size as nat
    }

    /// Checks the sizes of a feed-forward block: each must be positive.
    pub fn new(input_size: usize, hidden_size: usize, output_size: usize) -> (r: Result<
        Self,
        FfnConfigError,
    >)
        ensures
            match r {
                Ok(shape) => {
                    &&& ffn_config_error(input_size as nat, hidden_size as nat, output_size as nat) is None
                    &&& shape.spec_input_size() == input_size
                    &&& shape.spec_hidden_size() == hidden_size
                    &&& shape.spec_output_size() == output_size
                },
                Err(e) => ffn_config_error(input_size as nat, hidden_size as nat, output_size as nat)
                    == Some(e),
            },
    {
        if input_size == 0 {
            Err(FfnConfigError::ZeroInputSize)
        } else if hidden_size == 0 {
            Err(FfnConfigError::ZeroHiddenSize)
        } else if output_size == 0 {
            Err(FfnConfigError::ZeroOutputSize)
        } else {
            Ok(FfnShape { input_size, hidden_size, output_size })
        }
    }

    pub fn input_size(&self) -> (r: usize)
        ensures
            r == self.spec_input_size(),
            r > 0,
    {
        proof {
            use_type_invariant(self);
        }
        self.input_size
    }

    pub fn hidden_size(&self) -> (r: usize)
        ensures
            r == self.spec_hidden_size(),
            r > 0,
    {
        proof {
            use_type_invariant(self);
        }
        self.hidden_size
    }

    pub fn output_size(&self) -> (r: usize)
        ensures
            r == self.spec_output_size(),
            r > 0,
    {
        proof {
            use_type_invariant(self);
        }
        self.output_size
    }
}

/// Any three positive sizes make a feed-forward block, whatever their
/// relation to each other; otherwise the first zero size, in the order
/// input, hidden, output, is reported.
pub proof fn lemma_ffn_sizes_accept(input_size: nat, hidden_size: nat, output_size: nat)
    ensures
        ffn_config_error(input_size, hidden_size, output_size) is None <==> (input_size > 0
            && hidden_size > 0 && output_size > 0),
        input_size == 0 ==> ffn_config_error(input_size, hidden_size, output_size) == Some(
            FfnConfigError::ZeroInputSize,
        ),
        input_size > 0 && hidden_size == 0 ==> ffn_config_error(input_size, hidden_size, output_size)
            == Some(FfnConfigError::ZeroHiddenSize),
        input_size > 0 && hidden_size > 0 && output_size == 0 ==> ffn_config_error(
            input_size,
            hidden_size,
            output_size,
        ) == Some(FfnConfigError::ZeroOutputSize),
{
}

} // verus!
