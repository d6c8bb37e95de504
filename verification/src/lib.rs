pub mod laws;
pub mod linalg;
pub mod loss;
pub mod network;

pub use linalg::ColumnVector;
pub use linalg::Matrix;
pub use loss::mean_square_error;
pub use network::NetworkError;
pub use network::NeuralNetwork;
