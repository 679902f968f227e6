use vstd::prelude::*;
use crate::error::NibbleError;
use crate::style::StyleConfig;
use crate::widget::check_height;

verus! {

/// The options of the block widget.
#[derive(Debug, Clone)]
pub struct BlockArgs {
    pub title: String,
    pub height: u16,
    /// Width in percent of the terminal.
    pub width: u16,
    pub padding: u16,
    pub style: StyleConfig,
}

impl BlockArgs {
    /// Checks the options: a height of at least one line and a width of at
    /// most 100 percent.
    pub fn validate(&self) -> (r: Result<(), NibbleError>)
        ensures
            self.height == 0 ==> (r matches Err(NibbleError::InvalidDimensions(m)) && m@
                == "Height must be greater than 0"@),
            self.height > 0 && self.width > 100 ==> (r matches Err(
                NibbleError::InvalidDimensions(m),
            ) && m@ == "Width must be between 0 and 100"@),
            self.height > 0 && self.width <= 100 ==> r is Ok,
    {
        if let Err(e) = check_height(self.height) {
            return Err(e);
        }
        if self.width > 100 {
            return Err(
                NibbleError::InvalidDimensions(String::from_str("Width must be between 0 and 100")),
            );
        }
        Ok(())
    }
}

} // verus!
