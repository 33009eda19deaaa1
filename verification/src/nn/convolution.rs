use vstd::prelude::*;
use crate::float::Float32;
use crate::variable::Variable;

verus! {

/// How a two-dimensional convolution is laid out.
#[derive(Clone, Copy, Debug)]
pub struct Conv2dArgs {
    pub in_channels: u32,
    pub out_channels: u32,
    pub kernel_size: u32,
    pub stride: u32,
    pub padding: u32,
    pub dilation: u32,
    pub groups: u32,
    pub bias: bool,
}

/// A convolution layout in the making: the three sizes it was started with,
/// and what was set since.
pub struct Conv2dArgsBuilder {
    pub in_channels: u32,
    pub out_channels: u32,
    pub kernel_size: u32,
    pub stride: Option<u32>,
    pub padding: Option<u32>,
    pub dilation: Option<u32>,
    pub groups: Option<u32>,
    pub bias: Option<bool>,
}

/// A two-dimensional convolution layer: its layout, and the handle of its
/// weight, which names no record until the layer is given one.
pub struct Conv2d {
    pub args: Conv2dArgs,
    pub weight: Variable<Float32>,
}

impl Conv2d {
    /// Starts the layout of a layer from its three sizes; the rest has
    /// defaults.
    pub fn build(in_channels: u32, out_channels: u32, kernel_size: u32) -> (b: Conv2dArgsBuilder)
        ensures
            b == (Conv2dArgsBuilder {
                in_channels,
                out_channels,
                kernel_size,
                stride: None,
                padding: None,
                dilation: None,
                groups: None,
                bias: None,
            }),
    {
        Conv2dArgsBuilder {
            in_channels,
            out_channels,
            kernel_size,
            stride: None,
            padding: None,
            dilation: None,
            groups: None,
            bias: None,
        }
    }

    /// A layer with this layout, without a weight yet.
    pub fn new(args: Conv2dArgs) -> (r: Conv2d)
        ensures
            r.args == args,
            r.weight.id == -1,
    {
        Conv2d { args, weight: Variable::default() }
    }
}

impl Conv2dArgsBuilder {
    /// The layout as it stands: what was set, and for the rest stride 1,
    /// padding 0, dilation 1, one group, with bias.
    pub open spec fn built(self) -> Conv2dArgs {
        Conv2dArgs {
            in_channels: self.in_channels,
            out_channels: self.out_channels,
            kernel_size: self.kernel_size,
            stride: match self.stride {
                Some(v) => v,
                None => 1,
            },
            padding: match self.padding {
                Some(v) => v,
                None => 0,
            },
            dilation: match self.dilation {
                Some(v) => v,
                None => 1,
            },
            groups: match self.groups {
                Some(v) => v,
                None => 1,
            },
            bias: match self.bias {
                Some(v) => v,
                None => true,
            },
        }
    }

    /// Sets the stride.
    pub fn stride(self, value: u32) -> (b: Conv2dArgsBuilder)
        ensures
            b == (Conv2dArgsBuilder { stride: Some(value), ..self }),
    {
        let mut b = self;
        b.stride = Some(value);
        b
    }

    /// Sets the padding.
    pub fn padding(self, value: u32) -> (b: Conv2dArgsBuilder)
        ensures
            b == (Conv2dArgsBuilder { padding: Some(value), ..self }),
    {
        let mut b = self;
        b.padding = Some(value);
        b
    }

    /// Sets the dilation.
    pub fn dilation(self, value: u32) -> (b: Conv2dArgsBuilder)
        ensures
            b == (Conv2dArgsBuilder { dilation: Some(value), ..self }),
    {
        let mut b = self;
        b.dilation = Some(value);
        b
    }

    /// Sets the number of groups.
    pub fn groups(self, value: u32) -> (b: Conv2dArgsBuilder)
        ensures
            b == (Conv2dArgsBuilder { groups: Some(value), ..self }),
    {
        let mut b = self;
        b.groups = Some(value);
        b
    }

    /// Sets whether the layer has a bias.
    pub fn bias(self, value: bool) -> (b: Conv2dArgsBuilder)
        ensures
            b == (Conv2dArgsBuilder { bias: Some(value), ..self }),
    {
        let mut b = self;
        b.bias = Some(value);
        b
    }

    /// The layout as it stands.
    pub fn args(&self) -> (r: Conv2dArgs)
        ensures
            r == self.built(),
    {
        Conv2dArgs {
            in_channels: self.in_channels,
            out_channels: self.out_channels,
            kernel_size: self.kernel_size,
            stride: match self.stride {
                Some(v) => v,
                None => 1,
            },
            padding: match self.padding {
                Some(v) => v,
                None => 0,
            },
            dilation: match self.dilation {
                Some(v) => v,
                None => 1,
            },
            groups: match self.groups {
                Some(v) => v,
                None => 1,
            },
            bias: match self.bias {
                Some(v) => v,
                None => true,
            },
        }
    }

    /// The layer with the finished layout.
    pub fn done(self) -> (r: Conv2d)
        ensures
            r.args == self.built(),
            r.weight.id == -1,
    {
        let args = self.args();
        Conv2d::new(args)
    }
}

} // verus!
