//! Angular geometry for a chart wheel of body positions: the circular metric
//! (`angle`), the classifier of aspects between two positions (`aspect`),
//! the label declutter optimizer (`optimize`), the reading of exported
//! positions (`input`), and the state the chart application keeps
//! (`positions`, `controls`, `reading`).
pub mod angle;
pub mod aspect;
pub mod controls;
pub mod input;
pub mod optimize;
pub mod pairs;
pub mod positions;
pub mod reading;
