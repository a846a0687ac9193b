# image_kernel

Edge-sharpening kernels for RGBA images, written in Verus. Every pass is
stated as a function on a mathematical model of the image (`frame::Frame`:
width, height and the sample sequence) and proved against it.

* `pixel` – the `Rgba` colour, brightness, and the blends that pull a colour
  towards the mean of three neighbours.
* `clamp` – the generic clamp used to bound push strengths.
* `kernel` – the 3x3 neighbourhood, the Sobel gradient (with an exact integer
  square root) and the eight edge patterns of the colour and gradient pushes.
* `frame` – the model of an image and of each whole-image pass.
* `rows` – index arithmetic and the joining of rows computed in parallel.
* `image_kernel` – `ImageKernel`, whose methods run the passes on an image.
* `buffer`, `outside` – access to the `image` crate's pixel buffer, the
  `raster` resampler and `rayon`'s parallel map, through small trusted
  functions whose contracts are stated next to them.
* `laws` – properties of the passes: luminance is idempotent; the gradient
  keeps colours, reads only the alpha channel, ignores a constant alpha
  offset and commutes with a left-right mirror; the colour push never lowers
  opacity; each push reads only the old 3x3 neighbourhood of a pixel; a push
  of strength 0 changes no colour; and so on.

`app/` holds what is plain I/O: saving an image to a file.
