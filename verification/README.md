# svg_reader

Reads the paths of an SVG file, simplifies them (cubic curves to quadratic
ones, runs of quadratics and of collinear lines joined, flat curves to lines)
and writes the result as SVG and as shader source.

* `src/` is the verified library.  It is generic over the coordinate type and
  holds the structure of every step: reading path commands (`path`), the
  simplification passes (`curves`, `quadratics`, `lines`, `optimize`), the
  bounding-box pieces, shader segments and coordinate mapping (`layout`) and
  the per-variant summary (`stats`).  Every numeric decision is a function the
  caller passes in (`kernel` states what is asked of it).
* `app/` is the program: file input and output, parsing with the `svg` crate,
  and the floating-point geometry (curve fitting, arc lengths, flatness and
  collinearity tests, bounding boxes, scaling, number formatting).
